//! The round trip: the reader recovers every document the writer prints.
//!
//! `lemma_canvas_round_trip` is the store's central law: for any
//! well-formed document `d`, reading `sp_print_doc(d)` yields exactly
//! `d`. The lemmas before it show, chunk by chunk, that each field
//! reader recovers what the writer printed; the canonical text is one
//! of the many texts the tolerant reader accepts.

use vstd::prelude::*;
use crate::doc::{
    CanvasDataV, CanvasSettingsV, CanvasSizeV, PositionV, SizeV, WidgetStyleV, WidgetV,
};
use crate::jtext::{
    esc_char, lemma_escape_first, lemma_parse_string_complete, lemma_subrange_index, sp_escape,
    sp_lit, sp_quoted,
};
use crate::numtext::{
    int_text_val, is_digit, is_num_char, is_number_text, is_udec_text, lemma_int_text,
    lemma_num_end_of_segment, lemma_number_text_num_chars, num_end, sp_int, sp_parse_i32,
    sp_parse_num,
};
use crate::reader::{
    is_ws, sp_after_colon, sp_canvas_size_after, sp_canvas_size_finish, sp_canvas_size_members,
    sp_docobj_after, sp_docobj_finish, sp_docobj_members, sp_parse_bool, sp_parse_canvas_size,
    sp_parse_doc, sp_parse_docobj, sp_parse_opt_i32, sp_parse_opt_num, sp_parse_opt_string,
    sp_parse_position, sp_parse_settings, sp_parse_size, sp_parse_style, sp_parse_widget,
    sp_parse_widgets, sp_position_after, sp_position_finish, sp_position_members,
    sp_settings_after, sp_settings_finish, sp_settings_members, sp_size_after, sp_size_finish,
    sp_size_members, sp_style_after, sp_style_finish, sp_style_members, sp_widget_after,
    sp_widget_finish, sp_widget_members, sp_widgets_items, ws_end, CanvasSizeAcc, DocobjAcc,
    PositionAcc, SettingsAcc, SizeAcc, StyleAcc, WidgetAcc,
};
use crate::writer::{
    sp_bool, sp_opt_int, sp_opt_num, sp_opt_str, sp_print_csize, sp_print_doc, sp_print_items,
    sp_print_position, sp_print_settings, sp_print_size, sp_print_style, sp_print_widget,
    sp_print_widgets,
};

verus! {

/// Is every character of `w` whitespace?
pub open spec fn ws_text(w: Seq<char>) -> bool
    decreases w.len(),
{
    w.len() == 0 || (is_ws(w[0]) && ws_text(w.skip(1)))
}

/// Is every character of `x` one that the escaper leaves as itself?
pub open spec fn plain_text(x: Seq<char>) -> bool
    decreases x.len(),
{
    x.len() == 0 || (x[0] != '"' && x[0] != '\\' && (x[0] as u32) >= 32 && plain_text(x.skip(1)))
}

/// A whitespace chunk is skipped whole: the skip stops exactly at the
/// first character after it.
pub proof fn lemma_ws_chunk(s: Seq<char>, a: int, m: int, w: Seq<char>)
    requires
        0 <= a <= m <= s.len(),
        m - a == w.len(),
        s.subrange(a, m) == w,
        ws_text(w),
        m == s.len() || !is_ws(s[m]),
    ensures
        ws_end(s, a) == m,
    decreases w.len(),
{
    if w.len() == 0 {
    } else {
        lemma_subrange_index(s, a, m, w, 0);
        assert(is_ws(s[a]));
        assert(s.subrange(a + 1, m) =~= w.skip(1)) by {
            assert forall|k: int| 0 <= k < w.skip(1).len() implies s.subrange(a + 1, m)[k]
                == w.skip(1)[k] by {
                lemma_subrange_index(s, a, m, w, k + 1);
                assert(s.subrange(a + 1, m)[k] == s[a + 1 + k]);
            }
        }
        lemma_ws_chunk(s, a + 1, m, w.skip(1));
    }
}

/// Escaping leaves a text of plain characters unchanged.
pub proof fn lemma_escape_plain(x: Seq<char>)
    requires
        plain_text(x),
    ensures
        sp_escape(x) == x,
    decreases x.len(),
{
    if x.len() == 0 {
        assert(sp_escape(x) =~= x);
    } else {
        lemma_escape_first(x);
        lemma_escape_plain(x.skip(1));
        assert(esc_char(x[0]) == seq![x[0]]);
        assert(seq![x[0]] + x.skip(1) =~= x);
    }
}

/// A member name of plain characters prints as itself in quotes.
pub proof fn lemma_quoted_form(x: Seq<char>, q: Seq<char>)
    requires
        plain_text(x),
        q == seq!['"'] + x + seq!['"'],
    ensures
        sp_quoted(x) == q,
{
    lemma_escape_plain(x);
}

/// A printed integer is nonempty and starts with a sign or digit.
pub proof fn lemma_int_first_char(v: int)
    ensures
        sp_int(v).len() > 0,
        !is_ws(sp_int(v)[0]),
{
    lemma_int_text(v);
    let t = sp_int(v);
    if t[0] == '-' {
    } else {
        assert(is_udec_text(t));
        assert(is_digit(t[0]));
    }
}




/// Splits a known chunk equality at the border of its last part.
pub proof fn lemma_split_last(s: Seq<char>, i: int, end: int, a: Seq<char>, b: Seq<char>)
    requires
        0 <= i <= end <= s.len(),
        s.subrange(i, end) == a + b,
    ensures
        i + a.len() + b.len() == end,
        s.subrange(i, end - b.len()) == a,
        s.subrange(end - b.len(), end) == b,
{
    assert(s.subrange(i, end).len() == end - i);
    assert((a + b).len() == a.len() + b.len());
    assert(a.len() + b.len() == end - i);
    assert(s.subrange(i, end - b.len() as int) =~= a) by {
        assert forall|k: int| 0 <= k < a.len() implies s.subrange(i, end - b.len() as int)[k]
            == a[k] by {
            assert(s.subrange(i, end)[k] == (a + b)[k]);
            assert(s.subrange(i, end - b.len() as int)[k] == s[i + k]);
        }
    }
    assert(s.subrange(end - b.len() as int, end) =~= b) by {
        assert forall|k: int| 0 <= k < b.len() implies s.subrange(end - b.len() as int, end)[k]
            == b[k] by {
            assert(s.subrange(i, end)[k + a.len()] == (a + b)[k + a.len()]);
            assert((a + b)[k + a.len()] == b[k]);
            assert(s.subrange(i, end)[k + a.len()] == s[i + k + a.len()]);
            assert(s.subrange(end - b.len() as int, end)[k] == s[end - b.len() + k]);
        }
    }
}

/// A chunk equality makes the literal reader succeed there.
pub proof fn lemma_lit_at(s: Seq<char>, p: int, q: int, c: Seq<char>)
    requires
        0 <= p <= q <= s.len(),
        s.subrange(p, q) == c,
        q - p == c.len(),
    ensures
        sp_lit(s, p, c) == Some(q),
{
}

/// The integer reader recovers every printed integer, where a
/// non-number character (or the end) follows it.
pub proof fn lemma_i32_complete(s: Seq<char>, i: int, v: int)
    requires
        -2147483648 <= v <= 2147483647,
        0 <= i,
        i + sp_int(v).len() <= s.len(),
        s.subrange(i, i + sp_int(v).len()) == sp_int(v),
        i + sp_int(v).len() == s.len() || !is_num_char(s[i + sp_int(v).len()]),
    ensures
        sp_parse_i32(s, i) == Some((v, i + sp_int(v).len())),
{
    lemma_int_text(v);
    let t = sp_int(v);
    let m = i + t.len();
    assert forall|k: int| i <= k < m implies is_num_char(s[k]) by {
        lemma_subrange_index(s, i, m, t, k - i);
    }
    lemma_num_end_of_segment(s, i, m);
    assert(s.subrange(i, num_end(s, i)) == t);
    assert(int_text_val(t) == v);
}

/// The number reader recovers every printed number text, where a
/// non-number character (or the end) follows it.
pub proof fn lemma_num_complete(s: Seq<char>, i: int, t: Seq<char>)
    requires
        is_number_text(t),
        0 <= i,
        i + t.len() <= s.len(),
        s.subrange(i, i + t.len()) == t,
        i + t.len() == s.len() || !is_num_char(s[i + t.len()]),
    ensures
        sp_parse_num(s, i) == Some((t, i + t.len())),
{
    lemma_number_text_num_chars(t);
    let m = i + t.len();
    assert forall|k: int| i <= k < m implies is_num_char(s[k]) by {
        lemma_subrange_index(s, i, m, t, k - i);
    }
    lemma_num_end_of_segment(s, i, m);
    assert(s.subrange(i, num_end(s, i)) == t);
}

/// A number text starts with a minus sign or a digit.
pub proof fn lemma_number_first_char(t: Seq<char>)
    requires
        is_number_text(t),
    ensures
        t.len() > 0,
        t[0] == '-' || is_digit(t[0]),
{
}

/// The boolean reader recovers every printed boolean.
pub proof fn lemma_bool_complete(s: Seq<char>, i: int, b: bool)
    requires
        0 <= i,
        i + sp_bool(b).len() <= s.len(),
        s.subrange(i, i + sp_bool(b).len()) == sp_bool(b),
    ensures
        sp_parse_bool(s, i) == Some((b, i + sp_bool(b).len())),
{
    reveal_strlit("true");
    reveal_strlit("false");
    if b {
        lemma_lit_at(s, i, i + 4, "true"@);
    } else {
        lemma_subrange_index(s, i, i + 5, "false"@, 0);
        assert(s[i] == 'f');
        assert(sp_lit(s, i, "true"@) is None) by {
            if s.subrange(i, i + 4) == "true"@ {
                assert(s.subrange(i, i + 4)[0] == 't');
            }
        }
        lemma_lit_at(s, i, i + 5, "false"@);
    }
}

/// The optional-string reader recovers every printed optional string.
pub proof fn lemma_opt_string_complete(s: Seq<char>, i: int, o: Option<Seq<char>>)
    requires
        0 <= i,
        i + sp_opt_str(o).len() <= s.len(),
        s.subrange(i, i + sp_opt_str(o).len()) == sp_opt_str(o),
    ensures
        sp_parse_opt_string(s, i) == Some((o, i + sp_opt_str(o).len())),
{
    reveal_strlit("null");
    match o {
        None => {
            lemma_lit_at(s, i, i + 4, "null"@);
        },
        Some(x) => {
            lemma_subrange_index(s, i, i + sp_quoted(x).len(), sp_quoted(x), 0);
            assert(s[i] == '"');
            assert(sp_lit(s, i, "null"@) is None) by {
                if i + 4 <= s.len() && s.subrange(i, i + 4) == "null"@ {
                    assert(s.subrange(i, i + 4)[0] == 'n');
                }
            }
            lemma_parse_string_complete(s, i, x);
        },
    }
}

/// The optional-integer reader recovers every printed optional integer.
pub proof fn lemma_opt_i32_complete(s: Seq<char>, i: int, o: Option<int>)
    requires
        0 <= i,
        i + sp_opt_int(o).len() <= s.len(),
        s.subrange(i, i + sp_opt_int(o).len()) == sp_opt_int(o),
        o matches Some(v) ==> -2147483648 <= v <= 2147483647 && (i + sp_int(v).len() == s.len()
            || !is_num_char(s[i + sp_int(v).len()])),
    ensures
        sp_parse_opt_i32(s, i) == Some((o, i + sp_opt_int(o).len())),
{
    reveal_strlit("null");
    match o {
        None => {
            lemma_lit_at(s, i, i + 4, "null"@);
        },
        Some(v) => {
            lemma_int_text(v);
            lemma_subrange_index(s, i, i + sp_int(v).len(), sp_int(v), 0);
            assert(s[i] == '-' || is_digit(s[i]));
            assert(sp_lit(s, i, "null"@) is None) by {
                if i + 4 <= s.len() && s.subrange(i, i + 4) == "null"@ {
                    assert(s.subrange(i, i + 4)[0] == 'n');
                }
            }
            lemma_i32_complete(s, i, v);
        },
    }
}

/// The optional-number reader recovers every printed optional number.
pub proof fn lemma_opt_num_complete(s: Seq<char>, i: int, o: Option<Seq<char>>)
    requires
        0 <= i,
        i + sp_opt_num(o).len() <= s.len(),
        s.subrange(i, i + sp_opt_num(o).len()) == sp_opt_num(o),
        o matches Some(t) ==> is_number_text(t) && (i + t.len() == s.len() || !is_num_char(
            s[i + t.len()],
        )),
    ensures
        sp_parse_opt_num(s, i) == Some((o, i + sp_opt_num(o).len())),
{
    reveal_strlit("null");
    match o {
        None => {
            lemma_lit_at(s, i, i + 4, "null"@);
        },
        Some(t) => {
            lemma_number_first_char(t);
            lemma_subrange_index(s, i, i + t.len(), t, 0);
            assert(s[i] == '-' || is_digit(s[i]));
            assert(sp_lit(s, i, "null"@) is None) by {
                if i + 4 <= s.len() && s.subrange(i, i + 4) == "null"@ {
                    assert(s.subrange(i, i + 4)[0] == 'n');
                }
            }
            lemma_num_complete(s, i, t);
        },
    }
}








/// A printed widget list opens with a bracket.
pub proof fn lemma_widgets_first_char(ws: Seq<WidgetV>)
    ensures
        sp_print_widgets(ws).len() > 0,
        sp_print_widgets(ws)[0] == '[',
{
    reveal_strlit("[]");
    reveal_strlit("[");
    if ws.len() == 0 {
        assert(sp_print_widgets(ws)[0] == "[]"@[0]);
    } else {
        assert(sp_print_widgets(ws)[0] == "["@[0]);
    }
}


/// The reader recovers every printed position record.
#[verifier::rlimit(100)]
#[verifier::spinoff_prover]
pub proof fn lemma_position_complete(s: Seq<char>, i: int, v: PositionV)
    requires
        v.wf(),
        0 <= i,
        i + sp_print_position(v).len() <= s.len(),
        s.subrange(i, i + sp_print_position(v).len()) == sp_print_position(v),
    ensures
        sp_parse_position(s, i) == Some((v, i + sp_print_position(v).len())),
{
    reveal(sp_print_position);
    let c0 = "{"@;
    let c1 = "\n        "@;
    let c2 = "\"x\""@;
    let c3 = ": "@;
    let c4 = v.x;
    let c5 = ","@;
    let c6 = "\n        "@;
    let c7 = "\"y\""@;
    let c8 = ": "@;
    let c9 = v.y;
    let c10 = "\n      "@;
    let c11 = "}"@;
    let a1 = c0;
    let a2 = a1 + c1;
    let a3 = a2 + c2;
    let a4 = a3 + c3;
    let a5 = a4 + c4;
    let a6 = a5 + c5;
    let a7 = a6 + c6;
    let a8 = a7 + c7;
    let a9 = a8 + c8;
    let a10 = a9 + c9;
    let a11 = a10 + c10;
    let a12 = a11 + c11;
    let p0 = i;
    let p1 = p0 + c0.len();
    let p2 = p1 + c1.len();
    let p3 = p2 + c2.len();
    let p4 = p3 + c3.len();
    let p5 = p4 + c4.len();
    let p6 = p5 + c5.len();
    let p7 = p6 + c6.len();
    let p8 = p7 + c7.len();
    let p9 = p8 + c8.len();
    let p10 = p9 + c9.len();
    let p11 = p10 + c10.len();
    let p12 = p11 + c11.len();
    let end = i + sp_print_position(v).len();
    assert(a12 == sp_print_position(v));
    assert(s.subrange(i, end) == a12);
    assert(end == p12);
    lemma_split_last(s, i, p12, a11, c11);
    lemma_split_last(s, i, p11, a10, c10);
    lemma_split_last(s, i, p10, a9, c9);
    lemma_split_last(s, i, p9, a8, c8);
    lemma_split_last(s, i, p8, a7, c7);
    lemma_split_last(s, i, p7, a6, c6);
    lemma_split_last(s, i, p6, a5, c5);
    lemma_split_last(s, i, p5, a4, c4);
    lemma_split_last(s, i, p4, a3, c3);
    lemma_split_last(s, i, p3, a2, c2);
    lemma_split_last(s, i, p2, a1, c1);
    reveal_strlit(",");
    reveal_strlit(": ");
    reveal_strlit("\"x\"");
    reveal_strlit("\"y\"");
    reveal_strlit("\n        ");
    reveal_strlit("\n      ");
    reveal_strlit("{");
    reveal_strlit("}");
    lemma_subrange_index(s, p0, p1, c0, 0);
    assert(s[i] == '{');
    let acc0 = PositionAcc { x: None, y: None };
    reveal_strlit("x");
    reveal_strlit("y");
    assert("y"@ != "x"@) by {
        if "y"@ == "x"@ {
            assert("y"@[0] == "x"@[0]);
        }
    }
    lemma_subrange_index(s, p2, p3, c2, 0);
    assert(s[p2] == '"');
    assert(ws_text(c1)) by { reveal_with_fuel(ws_text, 12); }
    lemma_ws_chunk(s, p1, p2, c1);
    reveal_strlit("x");
    assert(plain_text("x"@)) by { reveal_with_fuel(plain_text, 20); }
    assert(c2 =~= seq!['"'] + "x"@ + seq!['"']);
    lemma_quoted_form("x"@, c2);
    assert(s.subrange(p2, p3) == sp_quoted("x"@));
    lemma_parse_string_complete(s, p2, "x"@);
    lemma_subrange_index(s, p3, p4, c3, 0);
    lemma_subrange_index(s, p3, p4, c3, 1);
    assert(s[p3] == ':' && s[p3 + 1] == ' ');
    lemma_number_first_char(v.x);
    lemma_subrange_index(s, p4, p5, c4, 0);
    assert(!is_ws(s[p4]));
    assert(ws_end(s, p3 + 2) == p4);
    assert(ws_end(s, p3 + 1) == p4);
    assert(ws_end(s, p3) == p3);
    assert(sp_after_colon(s, p3) == Some(p4));
    lemma_subrange_index(s, p5, p6, c5, 0);
    assert(s[p5] == ',');
    assert(!is_num_char(s[p5]));
    assert(s.subrange(p4, p5) == c4);
    lemma_num_complete(s, p4, v.x);
    let acc1 = PositionAcc { x: Some(v.x), y: None };
    assert(sp_position_members(s, p2, acc0) == sp_position_after(s, p5, acc1));
    lemma_subrange_index(s, p7, p8, c7, 0);
    assert(s[p7] == '"');
    assert(ws_text(c6)) by { reveal_with_fuel(ws_text, 12); }
    lemma_ws_chunk(s, p6, p7, c6);
    assert(s[p5] == ',');
    assert(ws_end(s, p5) == p5);
    assert(sp_position_after(s, p5, acc1) == sp_position_members(s, p7, acc1));
    reveal_strlit("y");
    assert(plain_text("y"@)) by { reveal_with_fuel(plain_text, 20); }
    assert(c7 =~= seq!['"'] + "y"@ + seq!['"']);
    lemma_quoted_form("y"@, c7);
    assert(s.subrange(p7, p8) == sp_quoted("y"@));
    lemma_parse_string_complete(s, p7, "y"@);
    lemma_subrange_index(s, p8, p9, c8, 0);
    lemma_subrange_index(s, p8, p9, c8, 1);
    assert(s[p8] == ':' && s[p8 + 1] == ' ');
    lemma_number_first_char(v.y);
    lemma_subrange_index(s, p9, p10, c9, 0);
    assert(!is_ws(s[p9]));
    assert(ws_end(s, p8 + 2) == p9);
    assert(ws_end(s, p8 + 1) == p9);
    assert(ws_end(s, p8) == p8);
    assert(sp_after_colon(s, p8) == Some(p9));
    lemma_subrange_index(s, p10, p11, c10, 0);
    assert(s[p10] == '\n');
    assert(!is_num_char(s[p10]));
    assert(s.subrange(p9, p10) == c9);
    lemma_num_complete(s, p9, v.y);
    let acc2 = PositionAcc { x: Some(v.x), y: Some(v.y) };
    assert(sp_position_members(s, p7, acc1) == sp_position_after(s, p10, acc2));
    lemma_subrange_index(s, p11, p12, c11, 0);
    assert(s[p11] == '}');
    assert(ws_text(c10)) by { reveal_with_fuel(ws_text, 12); }
    lemma_ws_chunk(s, p10, p11, c10);
    assert(sp_position_after(s, p10, acc2) == sp_position_finish(acc2, p11 + 1));
    assert(sp_position_finish(acc2, end) == Some((v, end))) by {
        assert(v == PositionV { x: v.x, y: v.y });
    }
    assert(ws_end(s, i + 1) == p2);
    assert(sp_parse_position(s, i) == sp_position_members(s, p2, acc0));
    assert(sp_parse_position(s, i) == Some((v, end)));
}

/// The reader recovers every printed size record.
#[verifier::rlimit(100)]
#[verifier::spinoff_prover]
pub proof fn lemma_size_complete(s: Seq<char>, i: int, v: SizeV)
    requires
        v.wf(),
        0 <= i,
        i + sp_print_size(v).len() <= s.len(),
        s.subrange(i, i + sp_print_size(v).len()) == sp_print_size(v),
    ensures
        sp_parse_size(s, i) == Some((v, i + sp_print_size(v).len())),
{
    reveal(sp_print_size);
    let c0 = "{"@;
    let c1 = "\n        "@;
    let c2 = "\"width\""@;
    let c3 = ": "@;
    let c4 = v.width;
    let c5 = ","@;
    let c6 = "\n        "@;
    let c7 = "\"height\""@;
    let c8 = ": "@;
    let c9 = v.height;
    let c10 = "\n      "@;
    let c11 = "}"@;
    let a1 = c0;
    let a2 = a1 + c1;
    let a3 = a2 + c2;
    let a4 = a3 + c3;
    let a5 = a4 + c4;
    let a6 = a5 + c5;
    let a7 = a6 + c6;
    let a8 = a7 + c7;
    let a9 = a8 + c8;
    let a10 = a9 + c9;
    let a11 = a10 + c10;
    let a12 = a11 + c11;
    let p0 = i;
    let p1 = p0 + c0.len();
    let p2 = p1 + c1.len();
    let p3 = p2 + c2.len();
    let p4 = p3 + c3.len();
    let p5 = p4 + c4.len();
    let p6 = p5 + c5.len();
    let p7 = p6 + c6.len();
    let p8 = p7 + c7.len();
    let p9 = p8 + c8.len();
    let p10 = p9 + c9.len();
    let p11 = p10 + c10.len();
    let p12 = p11 + c11.len();
    let end = i + sp_print_size(v).len();
    assert(a12 == sp_print_size(v));
    assert(s.subrange(i, end) == a12);
    assert(end == p12);
    lemma_split_last(s, i, p12, a11, c11);
    lemma_split_last(s, i, p11, a10, c10);
    lemma_split_last(s, i, p10, a9, c9);
    lemma_split_last(s, i, p9, a8, c8);
    lemma_split_last(s, i, p8, a7, c7);
    lemma_split_last(s, i, p7, a6, c6);
    lemma_split_last(s, i, p6, a5, c5);
    lemma_split_last(s, i, p5, a4, c4);
    lemma_split_last(s, i, p4, a3, c3);
    lemma_split_last(s, i, p3, a2, c2);
    lemma_split_last(s, i, p2, a1, c1);
    reveal_strlit(",");
    reveal_strlit(": ");
    reveal_strlit("\"height\"");
    reveal_strlit("\"width\"");
    reveal_strlit("\n        ");
    reveal_strlit("\n      ");
    reveal_strlit("{");
    reveal_strlit("}");
    lemma_subrange_index(s, p0, p1, c0, 0);
    assert(s[i] == '{');
    let acc0 = SizeAcc { width: None, height: None };
    lemma_subrange_index(s, p2, p3, c2, 0);
    assert(s[p2] == '"');
    assert(ws_text(c1)) by { reveal_with_fuel(ws_text, 12); }
    lemma_ws_chunk(s, p1, p2, c1);
    reveal_strlit("width");
    assert(plain_text("width"@)) by { reveal_with_fuel(plain_text, 20); }
    assert(c2 =~= seq!['"'] + "width"@ + seq!['"']);
    lemma_quoted_form("width"@, c2);
    assert(s.subrange(p2, p3) == sp_quoted("width"@));
    lemma_parse_string_complete(s, p2, "width"@);
    lemma_subrange_index(s, p3, p4, c3, 0);
    lemma_subrange_index(s, p3, p4, c3, 1);
    assert(s[p3] == ':' && s[p3 + 1] == ' ');
    lemma_number_first_char(v.width);
    lemma_subrange_index(s, p4, p5, c4, 0);
    assert(!is_ws(s[p4]));
    assert(ws_end(s, p3 + 2) == p4);
    assert(ws_end(s, p3 + 1) == p4);
    assert(ws_end(s, p3) == p3);
    assert(sp_after_colon(s, p3) == Some(p4));
    lemma_subrange_index(s, p5, p6, c5, 0);
    assert(s[p5] == ',');
    assert(!is_num_char(s[p5]));
    assert(s.subrange(p4, p5) == c4);
    lemma_num_complete(s, p4, v.width);
    let acc1 = SizeAcc { width: Some(v.width), height: None };
    assert(sp_size_members(s, p2, acc0) == sp_size_after(s, p5, acc1));
    lemma_subrange_index(s, p7, p8, c7, 0);
    assert(s[p7] == '"');
    assert(ws_text(c6)) by { reveal_with_fuel(ws_text, 12); }
    lemma_ws_chunk(s, p6, p7, c6);
    assert(s[p5] == ',');
    assert(ws_end(s, p5) == p5);
    assert(sp_size_after(s, p5, acc1) == sp_size_members(s, p7, acc1));
    reveal_strlit("height");
    assert(plain_text("height"@)) by { reveal_with_fuel(plain_text, 20); }
    assert(c7 =~= seq!['"'] + "height"@ + seq!['"']);
    lemma_quoted_form("height"@, c7);
    assert(s.subrange(p7, p8) == sp_quoted("height"@));
    lemma_parse_string_complete(s, p7, "height"@);
    lemma_subrange_index(s, p8, p9, c8, 0);
    lemma_subrange_index(s, p8, p9, c8, 1);
    assert(s[p8] == ':' && s[p8 + 1] == ' ');
    lemma_number_first_char(v.height);
    lemma_subrange_index(s, p9, p10, c9, 0);
    assert(!is_ws(s[p9]));
    assert(ws_end(s, p8 + 2) == p9);
    assert(ws_end(s, p8 + 1) == p9);
    assert(ws_end(s, p8) == p8);
    assert(sp_after_colon(s, p8) == Some(p9));
    lemma_subrange_index(s, p10, p11, c10, 0);
    assert(s[p10] == '\n');
    assert(!is_num_char(s[p10]));
    assert(s.subrange(p9, p10) == c9);
    lemma_num_complete(s, p9, v.height);
    let acc2 = SizeAcc { width: Some(v.width), height: Some(v.height) };
    assert(sp_size_members(s, p7, acc1) == sp_size_after(s, p10, acc2));
    lemma_subrange_index(s, p11, p12, c11, 0);
    assert(s[p11] == '}');
    assert(ws_text(c10)) by { reveal_with_fuel(ws_text, 12); }
    lemma_ws_chunk(s, p10, p11, c10);
    assert(sp_size_after(s, p10, acc2) == sp_size_finish(acc2, p11 + 1));
    assert(sp_size_finish(acc2, end) == Some((v, end))) by {
        assert(v == SizeV { width: v.width, height: v.height });
    }
    assert(ws_end(s, i + 1) == p2);
    assert(sp_parse_size(s, i) == sp_size_members(s, p2, acc0));
    assert(sp_parse_size(s, i) == Some((v, end)));
}

/// The reader recovers every printed canvas-size record.
#[verifier::rlimit(100)]
#[verifier::spinoff_prover]
pub proof fn lemma_csize_complete(s: Seq<char>, i: int, v: CanvasSizeV)
    requires
        v.wf(),
        0 <= i,
        i + sp_print_csize(v).len() <= s.len(),
        s.subrange(i, i + sp_print_csize(v).len()) == sp_print_csize(v),
    ensures
        sp_parse_canvas_size(s, i) == Some((v, i + sp_print_csize(v).len())),
{
    reveal(sp_print_csize);
    let c0 = "{"@;
    let c1 = "\n    "@;
    let c2 = "\"width\""@;
    let c3 = ": "@;
    let c4 = sp_int(v.width);
    let c5 = ","@;
    let c6 = "\n    "@;
    let c7 = "\"height\""@;
    let c8 = ": "@;
    let c9 = sp_int(v.height);
    let c10 = "\n  "@;
    let c11 = "}"@;
    let a1 = c0;
    let a2 = a1 + c1;
    let a3 = a2 + c2;
    let a4 = a3 + c3;
    let a5 = a4 + c4;
    let a6 = a5 + c5;
    let a7 = a6 + c6;
    let a8 = a7 + c7;
    let a9 = a8 + c8;
    let a10 = a9 + c9;
    let a11 = a10 + c10;
    let a12 = a11 + c11;
    let p0 = i;
    let p1 = p0 + c0.len();
    let p2 = p1 + c1.len();
    let p3 = p2 + c2.len();
    let p4 = p3 + c3.len();
    let p5 = p4 + c4.len();
    let p6 = p5 + c5.len();
    let p7 = p6 + c6.len();
    let p8 = p7 + c7.len();
    let p9 = p8 + c8.len();
    let p10 = p9 + c9.len();
    let p11 = p10 + c10.len();
    let p12 = p11 + c11.len();
    let end = i + sp_print_csize(v).len();
    assert(a12 == sp_print_csize(v));
    assert(s.subrange(i, end) == a12);
    assert(end == p12);
    lemma_split_last(s, i, p12, a11, c11);
    lemma_split_last(s, i, p11, a10, c10);
    lemma_split_last(s, i, p10, a9, c9);
    lemma_split_last(s, i, p9, a8, c8);
    lemma_split_last(s, i, p8, a7, c7);
    lemma_split_last(s, i, p7, a6, c6);
    lemma_split_last(s, i, p6, a5, c5);
    lemma_split_last(s, i, p5, a4, c4);
    lemma_split_last(s, i, p4, a3, c3);
    lemma_split_last(s, i, p3, a2, c2);
    lemma_split_last(s, i, p2, a1, c1);
    reveal_strlit(",");
    reveal_strlit(": ");
    reveal_strlit("\"height\"");
    reveal_strlit("\"width\"");
    reveal_strlit("\n    ");
    reveal_strlit("\n  ");
    reveal_strlit("{");
    reveal_strlit("}");
    lemma_subrange_index(s, p0, p1, c0, 0);
    assert(s[i] == '{');
    let acc0 = CanvasSizeAcc { width: None, height: None };
    lemma_subrange_index(s, p2, p3, c2, 0);
    assert(s[p2] == '"');
    assert(ws_text(c1)) by { reveal_with_fuel(ws_text, 12); }
    lemma_ws_chunk(s, p1, p2, c1);
    reveal_strlit("width");
    assert(plain_text("width"@)) by { reveal_with_fuel(plain_text, 20); }
    assert(c2 =~= seq!['"'] + "width"@ + seq!['"']);
    lemma_quoted_form("width"@, c2);
    assert(s.subrange(p2, p3) == sp_quoted("width"@));
    lemma_parse_string_complete(s, p2, "width"@);
    lemma_subrange_index(s, p3, p4, c3, 0);
    lemma_subrange_index(s, p3, p4, c3, 1);
    assert(s[p3] == ':' && s[p3 + 1] == ' ');
    lemma_int_first_char(v.width);
    lemma_subrange_index(s, p4, p5, c4, 0);
    assert(!is_ws(s[p4]));
    assert(ws_end(s, p3 + 2) == p4);
    assert(ws_end(s, p3 + 1) == p4);
    assert(ws_end(s, p3) == p3);
    assert(sp_after_colon(s, p3) == Some(p4));
    lemma_subrange_index(s, p5, p6, c5, 0);
    assert(s[p5] == ',');
    assert(!is_num_char(s[p5]));
    assert(s.subrange(p4, p5) == c4);
    lemma_i32_complete(s, p4, v.width);
    let acc1 = CanvasSizeAcc { width: Some(v.width), height: None };
    assert(sp_canvas_size_members(s, p2, acc0) == sp_canvas_size_after(s, p5, acc1));
    lemma_subrange_index(s, p7, p8, c7, 0);
    assert(s[p7] == '"');
    assert(ws_text(c6)) by { reveal_with_fuel(ws_text, 12); }
    lemma_ws_chunk(s, p6, p7, c6);
    assert(s[p5] == ',');
    assert(ws_end(s, p5) == p5);
    assert(sp_canvas_size_after(s, p5, acc1) == sp_canvas_size_members(s, p7, acc1));
    reveal_strlit("height");
    assert(plain_text("height"@)) by { reveal_with_fuel(plain_text, 20); }
    assert(c7 =~= seq!['"'] + "height"@ + seq!['"']);
    lemma_quoted_form("height"@, c7);
    assert(s.subrange(p7, p8) == sp_quoted("height"@));
    lemma_parse_string_complete(s, p7, "height"@);
    lemma_subrange_index(s, p8, p9, c8, 0);
    lemma_subrange_index(s, p8, p9, c8, 1);
    assert(s[p8] == ':' && s[p8 + 1] == ' ');
    lemma_int_first_char(v.height);
    lemma_subrange_index(s, p9, p10, c9, 0);
    assert(!is_ws(s[p9]));
    assert(ws_end(s, p8 + 2) == p9);
    assert(ws_end(s, p8 + 1) == p9);
    assert(ws_end(s, p8) == p8);
    assert(sp_after_colon(s, p8) == Some(p9));
    lemma_subrange_index(s, p10, p11, c10, 0);
    assert(s[p10] == '\n');
    assert(!is_num_char(s[p10]));
    assert(s.subrange(p9, p10) == c9);
    lemma_i32_complete(s, p9, v.height);
    let acc2 = CanvasSizeAcc { width: Some(v.width), height: Some(v.height) };
    assert(sp_canvas_size_members(s, p7, acc1) == sp_canvas_size_after(s, p10, acc2));
    lemma_subrange_index(s, p11, p12, c11, 0);
    assert(s[p11] == '}');
    assert(ws_text(c10)) by { reveal_with_fuel(ws_text, 12); }
    lemma_ws_chunk(s, p10, p11, c10);
    assert(sp_canvas_size_after(s, p10, acc2) == sp_canvas_size_finish(acc2, p11 + 1));
    assert(sp_canvas_size_finish(acc2, end) == Some((v, end))) by {
        assert(v == CanvasSizeV { width: v.width, height: v.height });
    }
    assert(ws_end(s, i + 1) == p2);
    assert(sp_parse_canvas_size(s, i) == sp_canvas_size_members(s, p2, acc0));
    assert(sp_parse_canvas_size(s, i) == Some((v, end)));
}












} // verus!
