//! JSON string texts and literal chunks.
//!
//! The document writer escapes each string field the way a JSON emitter
//! does; the reader undoes exactly that escaping. `sp_escape` is the
//! specification of the escaped form, `sp_scan_string` the specification
//! of the reader's scan, and `lemma_scan_complete` shows that the scan
//! recovers every escaped string.

use vstd::prelude::*;
use vstd::string::StrSliceExecFns;
use crate::numtext::{digit_char, digit_val, is_digit};

verus! {

/// The lower-case hex digit character of a value in `0 ..= 15`.
pub open spec fn hex_char(d: int) -> char {
    if d < 10 {
        digit_char(d)
    } else if d == 10 {
        'a'
    } else if d == 11 {
        'b'
    } else if d == 12 {
        'c'
    } else if d == 13 {
        'd'
    } else if d == 14 {
        'e'
    } else {
        'f'
    }
}

/// Is `c` a lower-case hex digit?
pub open spec fn is_hex_lower(c: char) -> bool {
    is_digit(c) || (97 <= (c as u32) && (c as u32) <= 102)
}

/// The value of a lower-case hex digit.
pub open spec fn hex_val(c: char) -> int {
    if is_digit(c) {
        digit_val(c)
    } else {
        (c as u32) - 87
    }
}

pub proof fn lemma_hex_char(d: int)
    requires
        0 <= d < 16,
    ensures
        is_hex_lower(hex_char(d)),
        hex_val(hex_char(d)) == d,
{
}

/// The escaped form of one character inside a JSON string: quote and
/// backslash get a backslash escape, the five named control characters
/// their short escapes, any other control character a `\u00xx` escape,
/// and every other character stands as itself.
pub open spec fn esc_char(c: char) -> Seq<char> {
    if c == '"' {
        seq!['\\', '"']
    } else if c == '\\' {
        seq!['\\', '\\']
    } else if c == '\u{8}' {
        seq!['\\', 'b']
    } else if c == '\t' {
        seq!['\\', 't']
    } else if c == '\n' {
        seq!['\\', 'n']
    } else if c == '\u{c}' {
        seq!['\\', 'f']
    } else if c == '\r' {
        seq!['\\', 'r']
    } else if (c as u32) < 32 {
        seq![
            '\\',
            'u',
            '0',
            '0',
            hex_char(((c as u32) as int) / 16),
            hex_char(((c as u32) as int) % 16),
        ]
    } else {
        seq![c]
    }
}

/// The escaped form of a whole string.
pub open spec fn sp_escape(s: Seq<char>) -> Seq<char>
    decreases s.len(),
{
    if s.len() == 0 {
        Seq::empty()
    } else {
        sp_escape(s.drop_last()) + esc_char(s.last())
    }
}

/// The printed form of a string field: the escaped text in quotes.
pub open spec fn sp_quoted(s: Seq<char>) -> Seq<char> {
    seq!['"'] + sp_escape(s) + seq!['"']
}

/// `sp_escape` unfolded at the front instead of the back.
pub proof fn lemma_escape_first(s: Seq<char>)
    requires
        s.len() > 0,
    ensures
        sp_escape(s) == esc_char(s[0]) + sp_escape(s.skip(1)),
    decreases s.len(),
{
    if s.len() == 1 {
        assert(s.drop_last() =~= Seq::<char>::empty());
        assert(s.skip(1) =~= Seq::<char>::empty());
        assert(sp_escape(s) =~= esc_char(s[0]) + sp_escape(s.skip(1)));
    } else {
        let d = s.drop_last();
        lemma_escape_first(d);
        assert(d[0] == s[0]);
        assert(d.skip(1) =~= s.skip(1).drop_last());
        assert(s.skip(1).last() == s.last());
        assert(sp_escape(s.skip(1)) == sp_escape(s.skip(1).drop_last()) + esc_char(s.skip(1).last()));
        assert(sp_escape(s) == (esc_char(s[0]) + sp_escape(d.skip(1))) + esc_char(s.last()));
        assert((esc_char(s[0]) + sp_escape(d.skip(1))) + esc_char(s.last()) =~= esc_char(s[0]) + (
        sp_escape(d.skip(1)) + esc_char(s.last())));
    }
}

/// The reader's scan of a quoted string's inside, from position `i`,
/// with `acc` the characters recovered so far. It stops at the closing
/// quote and undoes exactly the escapes `esc_char` produces.
pub open spec fn sp_scan_string(s: Seq<char>, i: int, acc: Seq<char>) -> Option<(Seq<char>, int)>
    decreases s.len() - i,
{
    if i < 0 || i >= s.len() {
        None
    } else if s[i] == '"' {
        Some((acc, i + 1))
    } else if s[i] == '\\' {
        if i + 1 >= s.len() {
            None
        } else {
            let e = s[i + 1];
            if e == '"' {
                sp_scan_string(s, i + 2, acc.push('"'))
            } else if e == '\\' {
                sp_scan_string(s, i + 2, acc.push('\\'))
            } else if e == 'b' {
                sp_scan_string(s, i + 2, acc.push('\u{8}'))
            } else if e == 't' {
                sp_scan_string(s, i + 2, acc.push('\t'))
            } else if e == 'n' {
                sp_scan_string(s, i + 2, acc.push('\n'))
            } else if e == 'f' {
                sp_scan_string(s, i + 2, acc.push('\u{c}'))
            } else if e == 'r' {
                sp_scan_string(s, i + 2, acc.push('\r'))
            } else if e == 'u' {
                if i + 6 <= s.len() && s[i + 2] == '0' && s[i + 3] == '0' && is_hex_lower(s[i + 4])
                    && is_hex_lower(s[i + 5]) {
                    let v = hex_val(s[i + 4]) * 16 + hex_val(s[i + 5]);
                    if v < 32 && v != 8 && v != 9 && v != 10 && v != 12 && v != 13 {
                        sp_scan_string(s, i + 6, acc.push((v as u8) as char))
                    } else {
                        None
                    }
                } else {
                    None
                }
            } else {
                None
            }
        }
    } else if (s[i] as u32) < 32 {
        None
    } else {
        sp_scan_string(s, i + 1, acc.push(s[i]))
    }
}

/// Reading a string field at position `i`: an opening quote, then the
/// scan of the inside.
pub open spec fn sp_parse_string(s: Seq<char>, i: int) -> Option<(Seq<char>, int)> {
    if 0 <= i && i < s.len() && s[i] == '"' {
        sp_scan_string(s, i + 1, Seq::empty())
    } else {
        None
    }
}

/// One position of a chunk equality: where the text from `a` to `b`
/// equals `p`, the character at offset `k` is `p[k]`.
pub proof fn lemma_subrange_index(s: Seq<char>, a: int, b: int, p: Seq<char>, k: int)
    requires
        0 <= a <= b <= s.len(),
        s.subrange(a, b) == p,
        0 <= k < p.len(),
    ensures
        s[a + k] == p[k],
{
    assert(s.subrange(a, b)[k] == p[k]);
}

/// The scan recovers every escaped string: where the text from `i`
/// holds `sp_escape(x)` followed by the closing quote, the scan returns
/// `x` (after `acc`) and stops right past the quote.
pub proof fn lemma_scan_complete(s: Seq<char>, i: int, x: Seq<char>, acc: Seq<char>)
    requires
        0 <= i,
        i + sp_escape(x).len() + 1 <= s.len(),
        s.subrange(i, i + sp_escape(x).len() + 1) == sp_escape(x) + seq!['"'],
    ensures
        sp_scan_string(s, i, acc) == Some((acc + x, i + sp_escape(x).len() + 1)),
    decreases x.len(),
{
    let w = sp_escape(x) + seq!['"'];
    let end = i + sp_escape(x).len() + 1;
    assert(w.len() == end - i);
    if x.len() == 0 {
        assert(w =~= seq!['"']);
        lemma_subrange_index(s, i, end, w, 0);
        assert(s[i] == '"');
        assert(acc + x =~= acc);
    } else {
        lemma_escape_first(x);
        let c = x[0];
        let e = esc_char(c);
        let rest = sp_escape(x.skip(1));
        assert(sp_escape(x) == e + rest);
        let w2 = rest + seq!['"'];
        assert(w =~= e + w2);
        assert forall|k: int| 0 <= k < e.len() implies s[i + k] == e[k] by {
            lemma_subrange_index(s, i, end, w, k);
            assert(w[k] == (e + w2)[k]);
        }
        let i2 = i + e.len() as int;
        assert(s.subrange(i2, i2 + w2.len() as int) =~= w2) by {
            assert forall|k: int| 0 <= k < w2.len() implies s.subrange(
                i2,
                i2 + w2.len() as int,
            )[k] == w2[k] by {
                lemma_subrange_index(s, i, end, w, e.len() + k);
                assert(w[e.len() + k] == (e + w2)[e.len() + k]);
                assert((e + w2)[e.len() + k] == w2[k]);
                assert(s.subrange(i2, i2 + w2.len() as int)[k] == s[i2 + k]);
            }
        }
        lemma_scan_complete(s, i2, x.skip(1), acc.push(c));
        assert(acc.push(c) + x.skip(1) =~= acc + x);
        if c == '"' {
            assert(s[i + 0] == e[0] && s[i + 1] == e[1]);
        } else if c == '\\' {
            assert(s[i + 0] == e[0] && s[i + 1] == e[1]);
        } else if c == '\u{8}' || c == '\t' || c == '\n' || c == '\u{c}' || c == '\r' {
            assert(s[i + 0] == e[0] && s[i + 1] == e[1]);
        } else if (c as u32) < 32 {
            let hi = ((c as u32) as int) / 16;
            let lo = ((c as u32) as int) % 16;
            lemma_hex_char(hi);
            lemma_hex_char(lo);
            assert(s[i + 0] == e[0] && s[i + 1] == e[1] && s[i + 2] == e[2] && s[i + 3] == e[3]
                && s[i + 4] == e[4] && s[i + 5] == e[5]);
            assert(s[i + 4] == hex_char(hi) && s[i + 5] == hex_char(lo));
            let v = hex_val(s[i + 4]) * 16 + hex_val(s[i + 5]);
            assert(v == c as u32);
            vstd::utf8::char_u32_cast(c, c as u32);
            assert((v as u8) as char == c);
        } else {
            assert(s[i + 0] == e[0]);
            assert(s[i] == c);
        }
    }
}

/// Where the text from `i` holds a whole printed string field, the
/// reader returns exactly its contents.
pub proof fn lemma_parse_string_complete(s: Seq<char>, i: int, x: Seq<char>)
    requires
        0 <= i,
        i + sp_quoted(x).len() <= s.len(),
        s.subrange(i, i + sp_quoted(x).len()) == sp_quoted(x),
    ensures
        sp_parse_string(s, i) == Some((x, i + sp_quoted(x).len())),
{
    let q = sp_quoted(x);
    let end = i + q.len() as int;
    let w = sp_escape(x) + seq!['"'];
    assert(q =~= seq!['"'] + w);
    lemma_subrange_index(s, i, end, q, 0);
    assert(s[i] == '"');
    assert(s.subrange(i + 1, i + 1 + w.len() as int) =~= w) by {
        assert forall|k: int| 0 <= k < w.len() implies s.subrange(
            i + 1,
            i + 1 + w.len() as int,
        )[k] == w[k] by {
            lemma_subrange_index(s, i, end, q, 1 + k);
            assert(q[1 + k] == (seq!['"'] + w)[1 + k]);
            assert((seq!['"'] + w)[1 + k] == w[k]);
            assert(s.subrange(i + 1, i + 1 + w.len() as int)[k] == s[i + 1 + k]);
        }
    }
    lemma_scan_complete(s, i + 1, x, Seq::empty());
    assert(Seq::empty() + x =~= x);
}

/// A literal chunk of the canonical document text at position `i`.
pub open spec fn sp_lit(s: Seq<char>, i: int, p: Seq<char>) -> Option<int> {
    if 0 <= i && i + p.len() <= s.len() && s.subrange(i, i + p.len()) == p {
        Some(i + p.len())
    } else {
        None
    }
}

/// Relies on `String::push`: appends one character at the end of the string.
#[verifier::external_body]
pub fn push_char(s: &mut String, c: char)
    ensures
        final(s)@ == old(s)@.push(c),
{
    s.push(c);
}

/// Relies on `str::chars`: yields the characters of the string in order.
#[verifier::external_body]
pub fn str_chars(s: &str) -> (v: Vec<char>)
    ensures
        v@ == s@,
{
    s.chars().collect()
}

/// Does the text hold exactly the chunk `p` at position `i`? Returns the
/// position just past it.
pub fn expect_lit(s: &Vec<char>, i: usize, p: &str) -> (r: Option<usize>)
    ensures
        match r {
            Some(j) => sp_lit(s@, i as int, p@) == Some(j as int) && i <= j <= s@.len(),
            None => sp_lit(s@, i as int, p@) is None,
        },
{
    let n = p.unicode_len();
    if s.len() < n || i > s.len() - n {
        return None;
    }
    let mut k: usize = 0;
    while k < n
        invariant
            k <= n,
            i + n <= s.len(),
            n == p@.len(),
            forall|t: int| 0 <= t < k ==> s@[i + t] == p@[t],
        decreases n - k,
    {
        if s[i + k] != p.get_char(k) {
            proof {
                assert(s@.subrange(i as int, (i + n) as int) != p@) by {
                    if s@.subrange(i as int, (i + n) as int) == p@ {
                        assert(s@.subrange(i as int, (i + n) as int)[k as int] == s@[i + k]);
                    }
                }
            }
            return None;
        }
        k += 1;
    }
    proof {
        assert(s@.subrange(i as int, (i + n) as int) =~= p@);
    }
    Some(i + n)
}

/// Reads a string field at position `i`, returning its contents and the
/// position just past the closing quote.
pub fn parse_string(s: &Vec<char>, i: usize) -> (r: Option<(String, usize)>)
    ensures
        match r {
            Some(x) => sp_parse_string(s@, i as int) == Some((x.0@, x.1 as int)) && i < x.1
                <= s@.len(),
            None => sp_parse_string(s@, i as int) is None,
        },
{
    if i >= s.len() || s[i] != '"' {
        return None;
    }
    let mut j = i + 1;
    let mut out = String::new();
    loop
        invariant
            i < s@.len(),
            s@[i as int] == '"',
            i + 1 <= j <= s@.len(),
            sp_scan_string(s@, i + 1, Seq::empty()) == sp_scan_string(s@, j as int, out@),
        decreases s@.len() - j,
    {
        let ghost j0 = j as int;
        let ghost out0 = out@;
        if j == s.len() {
            proof {
                assert(sp_scan_string(s@, j0, out0) is None);
            }
            return None;
        }
        let c = s[j];
        if c == '"' {
            proof {
                assert(sp_scan_string(s@, j0, out0) == Some((out0, j0 + 1)));
            }
            return Some((out, j + 1));
        } else if c == '\\' {
            if s.len() - j < 2 {
                proof {
                    assert(sp_scan_string(s@, j0, out0) is None);
                }
                return None;
            }
            let e = s[j + 1];
            if e == '"' {
                push_char(&mut out, '"');
                j += 2;
            } else if e == '\\' {
                push_char(&mut out, '\\');
                j += 2;
            } else if e == 'b' {
                push_char(&mut out, '\u{8}');
                j += 2;
            } else if e == 't' {
                push_char(&mut out, '\t');
                j += 2;
            } else if e == 'n' {
                push_char(&mut out, '\n');
                j += 2;
            } else if e == 'f' {
                push_char(&mut out, '\u{c}');
                j += 2;
            } else if e == 'r' {
                push_char(&mut out, '\r');
                j += 2;
            } else if e == 'u' {
                if s.len() - j < 6 || s[j + 2] != '0' || s[j + 3] != '0' {
                    proof {
                        assert(sp_scan_string(s@, j0, out0) is None);
                    }
                    return None;
                }
                let h1 = hex_val_of(s[j + 4]);
                let h2 = hex_val_of(s[j + 5]);
                match (h1, h2) {
                    (Some(a), Some(b)) => {
                        let v: u32 = a * 16 + b;
                        if v < 32 && v != 8 && v != 9 && v != 10 && v != 12 && v != 13 {
                            push_char(&mut out, (v as u8) as char);
                            j += 6;
                        } else {
                            proof {
                                assert(sp_scan_string(s@, j0, out0) is None);
                            }
                            return None;
                        }
                    },
                    _ => {
                        proof {
                            assert(sp_scan_string(s@, j0, out0) is None);
                        }
                        return None;
                    },
                }
            } else {
                proof {
                    assert(sp_scan_string(s@, j0, out0) is None);
                }
                return None;
            }
        } else if (c as u32) < 32 {
            proof {
                assert(sp_scan_string(s@, j0, out0) is None);
            }
            return None;
        } else {
            push_char(&mut out, c);
            j += 1;
        }
        proof {
            assert(sp_scan_string(s@, j0, out0) == sp_scan_string(s@, j as int, out@));
        }
    }
}

/// The value of a lower-case hex digit, in executable code.
fn hex_val_of(c: char) -> (r: Option<u32>)
    ensures
        match r {
            Some(v) => is_hex_lower(c) && v == hex_val(c) && v < 16,
            None => !is_hex_lower(c),
        },
{
    let u = c as u32;
    if 48 <= u && u <= 57 {
        Some(u - 48)
    } else if 97 <= u && u <= 102 {
        Some(u - 87)
    } else {
        None
    }
}

/// Appends the escaped form of the characters `x` to `out`.
pub fn escape_into(out: &mut String, x: &Vec<char>)
    ensures
        final(out)@ == old(out)@ + sp_escape(x@),
{
    let mut k: usize = 0;
    while k < x.len()
        invariant
            k <= x.len(),
            out@ == old(out)@ + sp_escape(x@.take(k as int)),
        decreases x.len() - k,
    {
        let c = x[k];
        proof {
            assert(x@.take(k + 1).drop_last() =~= x@.take(k as int));
            assert(x@.take(k + 1).last() == x@[k as int]);
        }
        if c == '"' {
            push_char(out, '\\');
            push_char(out, '"');
        } else if c == '\\' {
            push_char(out, '\\');
            push_char(out, '\\');
        } else if c == '\u{8}' {
            push_char(out, '\\');
            push_char(out, 'b');
        } else if c == '\t' {
            push_char(out, '\\');
            push_char(out, 't');
        } else if c == '\n' {
            push_char(out, '\\');
            push_char(out, 'n');
        } else if c == '\u{c}' {
            push_char(out, '\\');
            push_char(out, 'f');
        } else if c == '\r' {
            push_char(out, '\\');
            push_char(out, 'r');
        } else if (c as u32) < 32 {
            let u = c as u32;
            push_char(out, '\\');
            push_char(out, 'u');
            push_char(out, '0');
            push_char(out, '0');
            push_char(out, hex_char_of(u / 16));
            push_char(out, hex_char_of(u % 16));
        } else {
            push_char(out, c);
        }
        proof {
            assert(out@ =~= old(out)@ + sp_escape(x@.take(k + 1)));
        }
        k += 1;
    }
    proof {
        assert(x@.take(x@.len() as int) =~= x@);
    }
}

/// The lower-case hex digit character, in executable code.
fn hex_char_of(d: u32) -> (c: char)
    requires
        d < 16,
    ensures
        c == hex_char(d as int),
{
    match d {
        0 => '0',
        1 => '1',
        2 => '2',
        3 => '3',
        4 => '4',
        5 => '5',
        6 => '6',
        7 => '7',
        8 => '8',
        9 => '9',
        10 => 'a',
        11 => 'b',
        12 => 'c',
        13 => 'd',
        14 => 'e',
        _ => 'f',
    }
}

/// Appends a whole printed string field (quotes and escapes) to `out`.
pub fn quoted_into(out: &mut String, x: &str)
    ensures
        final(out)@ == old(out)@ + sp_quoted(x@),
{
    let chars = str_chars(x);
    push_char(out, '"');
    escape_into(out, &chars);
    push_char(out, '"');
    proof {
        assert(out@ =~= old(out)@ + sp_quoted(x@));
    }
}

} // verus!
