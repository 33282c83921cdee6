//! The canonical document text, and the writer that produces it.
//!
//! A document has exactly one on-disk form: the pretty-printed JSON text
//! below, with two-space indentation and the fields in declaration
//! order. `sp_print_doc` is that text; `print_doc` computes it.

use vstd::prelude::*;
use crate::doc::{opt_i32_view, opt_num_view, opt_view, CanvasData, CanvasDataV, CanvasSettings, CanvasSettingsV, CanvasSize, CanvasSizeV, Num, PositionV, SizeV, Widget, WidgetStyle, WidgetStyleV, WidgetV};
use crate::jtext::{quoted_into, sp_quoted};
use crate::numtext::{format_i32, sp_int};

verus! {

/// The printed form of a boolean field.
pub open spec fn sp_bool(b: bool) -> Seq<char> {
    if b {
        "true"@
    } else {
        "false"@
    }
}

/// The printed form of an optional string field.
pub open spec fn sp_opt_str(o: Option<Seq<char>>) -> Seq<char> {
    match o {
        None => "null"@,
        Some(s) => sp_quoted(s),
    }
}

/// The printed form of an optional integer field.
pub open spec fn sp_opt_int(o: Option<int>) -> Seq<char> {
    match o {
        None => "null"@,
        Some(v) => sp_int(v),
    }
}

/// The printed form of an optional number field.
pub open spec fn sp_opt_num(o: Option<Seq<char>>) -> Seq<char> {
    match o {
        None => "null"@,
        Some(t) => t,
    }
}

/// The printed position record.
#[verifier::opaque]
pub open spec fn sp_print_position(v: PositionV) -> Seq<char> {
    "{"@ + "\n        "@ + "\"x\""@ + ": "@ + v.x + ","@ + "\n        "@ + "\"y\""@ + ": "@ + v.y + "\n      "@ + "}"@
}

/// The printed size record.
#[verifier::opaque]
pub open spec fn sp_print_size(v: SizeV) -> Seq<char> {
    "{"@ + "\n        "@ + "\"width\""@ + ": "@ + v.width + ","@ + "\n        "@ + "\"height\""@ + ": "@ + v.height + "\n      "@ + "}"@
}

/// The printed canvas-size record.
#[verifier::opaque]
pub open spec fn sp_print_csize(v: CanvasSizeV) -> Seq<char> {
    "{"@ + "\n    "@ + "\"width\""@ + ": "@ + sp_int(v.width) + ","@ + "\n    "@ + "\"height\""@ + ": "@ + sp_int(v.height) + "\n  "@ + "}"@
}

/// The printed style record.
#[verifier::opaque]
pub open spec fn sp_print_style(v: WidgetStyleV) -> Seq<char> {
    "{"@ + "\n        "@ + "\"background_color\""@ + ": "@ + sp_opt_str(v.background_color) + ","@ + "\n        "@ + "\"border_color\""@ + ": "@ + sp_opt_str(v.border_color) + ","@ + "\n        "@ + "\"text_color\""@ + ": "@ + sp_opt_str(v.text_color) + ","@ + "\n        "@ + "\"font_size\""@ + ": "@ + sp_opt_int(v.font_size) + ","@ + "\n        "@ + "\"font_family\""@ + ": "@ + sp_opt_str(v.font_family) + ","@ + "\n        "@ + "\"rotation\""@ + ": "@ + sp_opt_num(v.rotation) + ","@ + "\n        "@ + "\"opacity\""@ + ": "@ + sp_opt_num(v.opacity) + "\n      "@ + "}"@
}

/// The printed settings record.
#[verifier::opaque]
pub open spec fn sp_print_settings(v: CanvasSettingsV) -> Seq<char> {
    "{"@ + "\n    "@ + "\"background_color\""@ + ": "@ + sp_quoted(v.background_color) + ","@ + "\n    "@ + "\"grid_enabled\""@ + ": "@ + sp_bool(v.grid_enabled) + ","@ + "\n    "@ + "\"grid_size\""@ + ": "@ + sp_int(v.grid_size) + ","@ + "\n    "@ + "\"snap_to_grid\""@ + ": "@ + sp_bool(v.snap_to_grid) + ","@ + "\n    "@ + "\"zoom_level\""@ + ": "@ + v.zoom_level + "\n  "@ + "}"@
}

/// The printed widget record.
#[verifier::opaque]
pub open spec fn sp_print_widget(v: WidgetV) -> Seq<char> {
    "{"@ + "\n      "@ + "\"id\""@ + ": "@ + sp_quoted(v.id) + ","@ + "\n      "@ + "\"widget_type\""@ + ": "@ + sp_quoted(v.widget_type) + ","@ + "\n      "@ + "\"content\""@ + ": "@ + sp_quoted(v.content) + ","@ + "\n      "@ + "\"position\""@ + ": "@ + sp_print_position(v.position) + ","@ + "\n      "@ + "\"size\""@ + ": "@ + sp_print_size(v.size) + ","@ + "\n      "@ + "\"style\""@ + ": "@ + sp_print_style(v.style) + "\n    "@ + "}"@
}

/// The canonical text of a whole document.
#[verifier::opaque]
pub open spec fn sp_print_doc(v: CanvasDataV) -> Seq<char> {
    "{"@ + "\n  "@ + "\"theme\""@ + ": "@ + sp_quoted(v.theme) + ","@ + "\n  "@ + "\"settings\""@ + ": "@ + sp_print_settings(v.settings) + ","@ + "\n  "@ + "\"widgets\""@ + ": "@ + sp_print_widgets(v.widgets) + ","@ + "\n  "@ + "\"canvas_size\""@ + ": "@ + sp_print_csize(v.canvas_size) + "\n"@ + "}"@
}

/// The printed widget list items: each on its own indented line,
/// separated by commas.
pub open spec fn sp_print_items(ws: Seq<WidgetV>) -> Seq<char>
    decreases ws.len(),
{
    if ws.len() == 0 {
        Seq::empty()
    } else if ws.len() == 1 {
        "\n    "@ + sp_print_widget(ws[0])
    } else {
        "\n    "@ + sp_print_widget(ws[0]) + ","@ + sp_print_items(ws.skip(1))
    }
}

/// The printed widget list.
pub open spec fn sp_print_widgets(ws: Seq<WidgetV>) -> Seq<char> {
    if ws.len() == 0 {
        "[]"@
    } else {
        "["@ + sp_print_items(ws) + "\n  "@ + "]"@
    }
}

/// Appends a boolean field.
fn print_bool(out: &mut String, b: bool)
    ensures
        final(out)@ == old(out)@ + sp_bool(b),
{
    if b {
        out.append("true");
    } else {
        out.append("false");
    }
}

/// Appends an optional string field.
fn print_opt_string(out: &mut String, o: &Option<String>)
    ensures
        final(out)@ == old(out)@ + sp_opt_str(opt_view(*o)),
{
    match o {
        None => out.append("null"),
        Some(s) => quoted_into(out, s.as_str()),
    }
}

/// Appends an optional integer field.
fn print_opt_i32(out: &mut String, o: &Option<i32>)
    ensures
        final(out)@ == old(out)@ + sp_opt_int(opt_i32_view(*o)),
{
    match o {
        None => out.append("null"),
        Some(v) => format_i32(*v, out),
    }
}

/// Appends an optional number field.
fn print_opt_num(out: &mut String, o: &Option<Num>)
    ensures
        final(out)@ == old(out)@ + sp_opt_num(opt_num_view(*o)),
{
    match o {
        None => out.append("null"),
        Some(n) => out.append(n.as_str()),
    }
}

/// Appends a printed style record.
#[verifier::rlimit(100)]
#[verifier::spinoff_prover]
fn print_style_into(out: &mut String, st: &WidgetStyle)
    ensures
        final(out)@ == old(out)@ + sp_print_style(st@),
{
    out.append("{\n        \"background_color\": ");
    print_opt_string(out, &st.background_color);
    out.append(",\n        \"border_color\": ");
    print_opt_string(out, &st.border_color);
    out.append(",\n        \"text_color\": ");
    print_opt_string(out, &st.text_color);
    out.append(",\n        \"font_size\": ");
    print_opt_i32(out, &st.font_size);
    out.append(",\n        \"font_family\": ");
    print_opt_string(out, &st.font_family);
    out.append(",\n        \"rotation\": ");
    print_opt_num(out, &st.rotation);
    out.append(",\n        \"opacity\": ");
    print_opt_num(out, &st.opacity);
    out.append("\n      }");
    proof {
        reveal(sp_print_style);
        reveal_strlit("{\n        \"background_color\": ");
        reveal_strlit(",\n        \"border_color\": ");
        reveal_strlit(",\n        \"text_color\": ");
        reveal_strlit(",\n        \"font_size\": ");
        reveal_strlit(",\n        \"font_family\": ");
        reveal_strlit(",\n        \"rotation\": ");
        reveal_strlit(",\n        \"opacity\": ");
        reveal_strlit("\n      }");
        reveal_strlit("{");
        reveal_strlit("}");
        reveal_strlit(",");
        reveal_strlit(": ");
        reveal_strlit("\n        ");
        reveal_strlit("\n      ");
        reveal_strlit("\"background_color\"");
        reveal_strlit("\"border_color\"");
        reveal_strlit("\"text_color\"");
        reveal_strlit("\"font_size\"");
        reveal_strlit("\"font_family\"");
        reveal_strlit("\"rotation\"");
        reveal_strlit("\"opacity\"");
        assert(out@ =~= old(out)@ + sp_print_style(st@));
    }
}

/// Appends a printed widget record.
#[verifier::rlimit(100)]
#[verifier::spinoff_prover]
fn print_widget_into(out: &mut String, w: &Widget)
    ensures
        final(out)@ == old(out)@ + sp_print_widget(w@),
{
    out.append("{\n      \"id\": ");
    quoted_into(out, w.id.as_str());
    out.append(",\n      \"widget_type\": ");
    quoted_into(out, w.widget_type.as_str());
    out.append(",\n      \"content\": ");
    quoted_into(out, w.content.as_str());
    out.append(",\n      \"position\": {\n        \"x\": ");
    out.append(w.position.x.as_str());
    out.append(",\n        \"y\": ");
    out.append(w.position.y.as_str());
    out.append("\n      },\n      \"size\": {\n        \"width\": ");
    out.append(w.size.width.as_str());
    out.append(",\n        \"height\": ");
    out.append(w.size.height.as_str());
    out.append("\n      },\n      \"style\": ");
    print_style_into(out, &w.style);
    out.append("\n    }");
    proof {
        reveal(sp_print_widget);
        reveal(sp_print_position);
        reveal(sp_print_size);
        reveal_strlit("{\n      \"id\": ");
        reveal_strlit(",\n      \"widget_type\": ");
        reveal_strlit(",\n      \"content\": ");
        reveal_strlit(",\n      \"position\": {\n        \"x\": ");
        reveal_strlit(",\n        \"y\": ");
        reveal_strlit("\n      },\n      \"size\": {\n        \"width\": ");
        reveal_strlit(",\n        \"height\": ");
        reveal_strlit("\n      },\n      \"style\": ");
        reveal_strlit("\n    }");
        reveal_strlit("{");
        reveal_strlit("}");
        reveal_strlit(",");
        reveal_strlit(": ");
        reveal_strlit("\n      ");
        reveal_strlit("\n    ");
        reveal_strlit("\n        ");
        reveal_strlit("\"id\"");
        reveal_strlit("\"widget_type\"");
        reveal_strlit("\"content\"");
        reveal_strlit("\"position\"");
        reveal_strlit("\"size\"");
        reveal_strlit("\"style\"");
        reveal_strlit("\"x\"");
        reveal_strlit("\"y\"");
        reveal_strlit("\"width\"");
        reveal_strlit("\"height\"");
        assert(out@ =~= old(out)@ + sp_print_widget(w@));
    }
}

/// Appends the printed widget list.
fn print_widgets_into(out: &mut String, ws: &Vec<Widget>)
    ensures
        final(out)@ == old(out)@ + sp_print_widgets(ws@.map_values(|w: Widget| w@)),
{
    let ghost wsv = ws@.map_values(|w: Widget| w@);
    if ws.len() == 0 {
        out.append("[]");
        return ;
    }
    out.append("[");
    proof {
        assert(wsv.skip(0) =~= wsv);
    }
    let mut k: usize = 0;
    while k < ws.len()
        invariant
            0 <= k <= ws@.len(),
            0 < ws@.len(),
            wsv == ws@.map_values(|w: Widget| w@),
            wsv.len() == ws@.len(),
            out@ + sp_print_items(wsv.skip(k as int)) == old(out)@ + "["@ + sp_print_items(wsv),
        decreases ws@.len() - k,
    {
        proof {
            assert(wsv.skip(k as int)[0] == wsv[k as int]);
            assert(wsv[k as int] == ws@[k as int]@);
            assert(wsv.skip(k as int).skip(1) =~= wsv.skip(k as int + 1));
        }
        out.append("\n    ");
        print_widget_into(out, &ws[k]);
        if k + 1 < ws.len() {
            out.append(",");
            proof {
                assert(out@ + sp_print_items(wsv.skip(k + 1)) =~= old(out)@ + "["@
                    + sp_print_items(wsv));
            }
            k += 1;
        } else {
            proof {
                assert(sp_print_items(wsv.skip(k as int)) == "\n    "@ + sp_print_widget(
                    wsv[k as int],
                ));
                assert(out@ + sp_print_items(wsv.skip(k + 1)) =~= old(out)@ + "["@
                    + sp_print_items(wsv));
            }
            k += 1;
        }
    }
    proof {
        assert(wsv.skip(wsv.len() as int) =~= Seq::<WidgetV>::empty());
        assert(sp_print_items(Seq::<WidgetV>::empty()) == Seq::<char>::empty());
        assert(sp_print_items(wsv.skip(wsv.len() as int)) == Seq::<char>::empty());
        assert(out@ + Seq::<char>::empty() =~= out@);
    }
    out.append("\n  ]");
    proof {
        reveal_strlit("\n  ]");
        reveal_strlit("\n  ");
        reveal_strlit("]");
        assert(out@ =~= old(out)@ + sp_print_widgets(wsv));
    }
}

/// Appends a printed settings record.
#[verifier::rlimit(100)]
#[verifier::spinoff_prover]
fn print_settings_into(out: &mut String, se: &CanvasSettings)
    ensures
        final(out)@ == old(out)@ + sp_print_settings(se@),
{
    out.append("{\n    \"background_color\": ");
    quoted_into(out, se.background_color.as_str());
    out.append(",\n    \"grid_enabled\": ");
    print_bool(out, se.grid_enabled);
    out.append(",\n    \"grid_size\": ");
    format_i32(se.grid_size, out);
    out.append(",\n    \"snap_to_grid\": ");
    print_bool(out, se.snap_to_grid);
    out.append(",\n    \"zoom_level\": ");
    out.append(se.zoom_level.as_str());
    out.append("\n  }");
    proof {
        reveal(sp_print_settings);
        reveal_strlit("{\n    \"background_color\": ");
        reveal_strlit(",\n    \"grid_enabled\": ");
        reveal_strlit(",\n    \"grid_size\": ");
        reveal_strlit(",\n    \"snap_to_grid\": ");
        reveal_strlit(",\n    \"zoom_level\": ");
        reveal_strlit("\n  }");
        reveal_strlit("{");
        reveal_strlit("}");
        reveal_strlit(",");
        reveal_strlit(": ");
        reveal_strlit("\n    ");
        reveal_strlit("\n  ");
        reveal_strlit("\"background_color\"");
        reveal_strlit("\"grid_enabled\"");
        reveal_strlit("\"grid_size\"");
        reveal_strlit("\"snap_to_grid\"");
        reveal_strlit("\"zoom_level\"");
        assert(out@ =~= old(out)@ + sp_print_settings(se@));
    }
}

/// Appends a printed canvas-size record.
#[verifier::rlimit(100)]
#[verifier::spinoff_prover]
fn print_csize_into(out: &mut String, cs: &CanvasSize)
    ensures
        final(out)@ == old(out)@ + sp_print_csize(cs@),
{
    out.append("{\n    \"width\": ");
    format_i32(cs.width, out);
    out.append(",\n    \"height\": ");
    format_i32(cs.height, out);
    out.append("\n  }");
    proof {
        reveal(sp_print_csize);
        reveal_strlit("{\n    \"width\": ");
        reveal_strlit(",\n    \"height\": ");
        reveal_strlit("\n  }");
        reveal_strlit("{");
        reveal_strlit("}");
        reveal_strlit(",");
        reveal_strlit(": ");
        reveal_strlit("\n    ");
        reveal_strlit("\n  ");
        reveal_strlit("\"width\"");
        reveal_strlit("\"height\"");
        assert(out@ =~= old(out)@ + sp_print_csize(cs@));
    }
}

/// The canonical text of the document: what the canvas store writes.
#[verifier::rlimit(100)]
#[verifier::spinoff_prover]
pub fn print_doc(d: &CanvasData) -> (out: String)
    ensures
        out@ == sp_print_doc(d@),

{
    let mut out = String::new();
    out.append("{\n  \"theme\": ");
    quoted_into(&mut out, d.theme.as_str());
    out.append(",\n  \"settings\": ");
    print_settings_into(&mut out, &d.settings);
    out.append(",\n  \"widgets\": ");
    print_widgets_into(&mut out, &d.widgets);
    out.append(",\n  \"canvas_size\": ");
    print_csize_into(&mut out, &d.canvas_size);
    out.append("\n}");
    proof {
        reveal(sp_print_doc);
        reveal_strlit("{\n  \"theme\": ");
        reveal_strlit(",\n  \"settings\": ");
        reveal_strlit(",\n  \"widgets\": ");
        reveal_strlit(",\n  \"canvas_size\": ");
        reveal_strlit("\n}");
        reveal_strlit("{");
        reveal_strlit("}");
        reveal_strlit(",");
        reveal_strlit(": ");
        reveal_strlit("\n  ");
        reveal_strlit("\n");
        reveal_strlit("\"theme\"");
        reveal_strlit("\"settings\"");
        reveal_strlit("\"widgets\"");
        reveal_strlit("\"canvas_size\"");
        assert(out@ =~= sp_print_doc(d@));
    }
    out
}

} // verus!
