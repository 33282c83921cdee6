//! The reader of the canvas document's JSON.
//!
//! The reader accepts the document under JSON's own grammar: any
//! whitespace between tokens, the members of each object in any order
//! (each at most once), and the optional style members absent. Each
//! `sp_...` function is the exact meaning of the reader at one position
//! of the text; the executable functions return precisely what the
//! specification functions denote.

use vstd::prelude::*;
use crate::doc::{
    opt_i32_view, opt_num_view, opt_view, CanvasData, CanvasDataV, CanvasSettings,
    CanvasSettingsV, CanvasSize, CanvasSizeV, Num, Position, PositionV, Size, SizeV, Widget,
    WidgetStyle, WidgetStyleV, WidgetV,
};
use crate::jtext::{expect_lit, parse_string, push_char, sp_lit, sp_parse_string, str_chars};
use crate::numtext::{check_number_text, parse_i32, scan_num_end, sp_parse_i32, sp_parse_num};

verus! {

/// Is `c` JSON whitespace?
pub open spec fn is_ws(c: char) -> bool {
    c == ' ' || c == '\t' || c == '\n' || c == '\r'
}

/// The first position at or after `i` that does not hold whitespace.
pub open spec fn ws_end(s: Seq<char>, i: int) -> int
    decreases s.len() - i,
{
    if 0 <= i && i < s.len() && is_ws(s[i]) {
        ws_end(s, i + 1)
    } else {
        i
    }
}

/// The first non-whitespace position, in executable code.
pub fn skip_ws(s: &Vec<char>, i: usize) -> (j: usize)
    requires
        i <= s@.len(),
    ensures
        j as int == ws_end(s@, i as int),
        i <= j <= s@.len(),
{
    let mut k = i;
    while k < s.len() && (s[k] == ' ' || s[k] == '\t' || s[k] == '\n' || s[k] == '\r')
        invariant
            i <= k <= s@.len(),
            ws_end(s@, i as int) == ws_end(s@, k as int),
        decreases s@.len() - k,
    {
        k += 1;
    }
    k
}

/// After a member name: optional whitespace, a colon, optional
/// whitespace; the position of the member's value.
pub open spec fn sp_after_colon(s: Seq<char>, i: int) -> Option<int> {
    let j = ws_end(s, i);
    if 0 <= j && j < s.len() && s[j] == ':' {
        Some(ws_end(s, j + 1))
    } else {
        None
    }
}

/// A member that was never seen stands for an absent optional field.
pub open spec fn opt_flat<A>(o: Option<Option<A>>) -> Option<A> {
    match o {
        Some(x) => x,
        None => None,
    }
}

/// Reading a boolean field.
pub open spec fn sp_parse_bool(s: Seq<char>, i: int) -> Option<(bool, int)> {
    match sp_lit(s, i, "true"@) {
        Some(j) => Some((true, j)),
        None => match sp_lit(s, i, "false"@) {
            Some(j) => Some((false, j)),
            None => None,
        },
    }
}

/// Reading an optional string field: `null` or a quoted string.
pub open spec fn sp_parse_opt_string(s: Seq<char>, i: int) -> Option<(Option<Seq<char>>, int)> {
    match sp_lit(s, i, "null"@) {
        Some(j) => Some((None, j)),
        None => match sp_parse_string(s, i) {
            Some((x, j)) => Some((Some(x), j)),
            None => None,
        },
    }
}

/// Reading an optional integer field: `null` or a decimal integer.
pub open spec fn sp_parse_opt_i32(s: Seq<char>, i: int) -> Option<(Option<int>, int)> {
    match sp_lit(s, i, "null"@) {
        Some(j) => Some((None, j)),
        None => match sp_parse_i32(s, i) {
            Some((v, j)) => Some((Some(v), j)),
            None => None,
        },
    }
}

/// Reading an optional number field: `null` or a number text.
pub open spec fn sp_parse_opt_num(s: Seq<char>, i: int) -> Option<(Option<Seq<char>>, int)> {
    match sp_lit(s, i, "null"@) {
        Some(j) => Some((None, j)),
        None => match sp_parse_num(s, i) {
            Some((t, j)) => Some((Some(t), j)),
            None => None,
        },
    }
}

pub ghost struct PositionAcc {
    pub x: Option<Seq<char>>,
    pub y: Option<Seq<char>>,
}

pub open spec fn sp_position_finish(acc: PositionAcc, end: int) -> Option<(PositionV, int)> {
    if acc.x is Some && acc.y is Some {
        Some((PositionV { x: acc.x.unwrap(), y: acc.y.unwrap() }, end))
    } else {
        None
    }
}

pub open spec fn sp_position_members(s: Seq<char>, i: int, acc: PositionAcc) -> Option<(PositionV, int)>
    decreases s.len() - i,
{
    match sp_parse_string(s, i) {
        None => None,
        Some((name, n)) => match sp_after_colon(s, n) {
            None => None,
            Some(v0) => if v0 <= i || v0 > s.len() {
                None
            } else {
                if name == "x"@ {
                    if acc.x is Some {
                        None
                    } else {
                        match sp_parse_num(s, v0) {
                            None => None,
                            Some((x, ve)) => if ve <= v0 || ve > s.len() {
                                None
                            } else {
                                sp_position_after(s, ve, PositionAcc { x: Some(x), y: acc.y })
                            },
                        }
                    }
                } else if name == "y"@ {
                    if acc.y is Some {
                        None
                    } else {
                        match sp_parse_num(s, v0) {
                            None => None,
                            Some((x, ve)) => if ve <= v0 || ve > s.len() {
                                None
                            } else {
                                sp_position_after(s, ve, PositionAcc { x: acc.x, y: Some(x) })
                            },
                        }
                    }
                } else {
                    None
                }
            },
        },
    }
}

pub open spec fn sp_position_after(s: Seq<char>, i: int, acc: PositionAcc) -> Option<(PositionV, int)>
    decreases s.len() - i,
{
    let j = ws_end(s, i);
    if 0 <= j && j < s.len() && s[j] == ',' {
        let k = ws_end(s, j + 1);
        if k <= i || k > s.len() {
            None
        } else {
            sp_position_members(s, k, acc)
        }
    } else if 0 <= j && j < s.len() && s[j] == '}' {
        sp_position_finish(acc, j + 1)
    } else {
        None
    }
}

pub open spec fn sp_parse_position(s: Seq<char>, i: int) -> Option<(PositionV, int)> {
    if 0 <= i && i < s.len() && s[i] == '{' {
        let j = ws_end(s, i + 1);
        if 0 <= j && j < s.len() && s[j] == '}' {
            sp_position_finish(PositionAcc { x: None, y: None }, j + 1)
        } else if j <= i || j > s.len() {
            None
        } else {
            sp_position_members(s, j, PositionAcc { x: None, y: None })
        }
    } else {
        None
    }
}

pub ghost struct SizeAcc {
    pub width: Option<Seq<char>>,
    pub height: Option<Seq<char>>,
}

pub open spec fn sp_size_finish(acc: SizeAcc, end: int) -> Option<(SizeV, int)> {
    if acc.width is Some && acc.height is Some {
        Some((SizeV { width: acc.width.unwrap(), height: acc.height.unwrap() }, end))
    } else {
        None
    }
}

pub open spec fn sp_size_members(s: Seq<char>, i: int, acc: SizeAcc) -> Option<(SizeV, int)>
    decreases s.len() - i,
{
    match sp_parse_string(s, i) {
        None => None,
        Some((name, n)) => match sp_after_colon(s, n) {
            None => None,
            Some(v0) => if v0 <= i || v0 > s.len() {
                None
            } else {
                if name == "width"@ {
                    if acc.width is Some {
                        None
                    } else {
                        match sp_parse_num(s, v0) {
                            None => None,
                            Some((x, ve)) => if ve <= v0 || ve > s.len() {
                                None
                            } else {
                                sp_size_after(s, ve, SizeAcc { width: Some(x), height: acc.height })
                            },
                        }
                    }
                } else if name == "height"@ {
                    if acc.height is Some {
                        None
                    } else {
                        match sp_parse_num(s, v0) {
                            None => None,
                            Some((x, ve)) => if ve <= v0 || ve > s.len() {
                                None
                            } else {
                                sp_size_after(s, ve, SizeAcc { width: acc.width, height: Some(x) })
                            },
                        }
                    }
                } else {
                    None
                }
            },
        },
    }
}

pub open spec fn sp_size_after(s: Seq<char>, i: int, acc: SizeAcc) -> Option<(SizeV, int)>
    decreases s.len() - i,
{
    let j = ws_end(s, i);
    if 0 <= j && j < s.len() && s[j] == ',' {
        let k = ws_end(s, j + 1);
        if k <= i || k > s.len() {
            None
        } else {
            sp_size_members(s, k, acc)
        }
    } else if 0 <= j && j < s.len() && s[j] == '}' {
        sp_size_finish(acc, j + 1)
    } else {
        None
    }
}

pub open spec fn sp_parse_size(s: Seq<char>, i: int) -> Option<(SizeV, int)> {
    if 0 <= i && i < s.len() && s[i] == '{' {
        let j = ws_end(s, i + 1);
        if 0 <= j && j < s.len() && s[j] == '}' {
            sp_size_finish(SizeAcc { width: None, height: None }, j + 1)
        } else if j <= i || j > s.len() {
            None
        } else {
            sp_size_members(s, j, SizeAcc { width: None, height: None })
        }
    } else {
        None
    }
}

pub ghost struct CanvasSizeAcc {
    pub width: Option<int>,
    pub height: Option<int>,
}

pub open spec fn sp_canvas_size_finish(acc: CanvasSizeAcc, end: int) -> Option<(CanvasSizeV, int)> {
    if acc.width is Some && acc.height is Some {
        Some((CanvasSizeV { width: acc.width.unwrap(), height: acc.height.unwrap() }, end))
    } else {
        None
    }
}

pub open spec fn sp_canvas_size_members(s: Seq<char>, i: int, acc: CanvasSizeAcc) -> Option<(CanvasSizeV, int)>
    decreases s.len() - i,
{
    match sp_parse_string(s, i) {
        None => None,
        Some((name, n)) => match sp_after_colon(s, n) {
            None => None,
            Some(v0) => if v0 <= i || v0 > s.len() {
                None
            } else {
                if name == "width"@ {
                    if acc.width is Some {
                        None
                    } else {
                        match sp_parse_i32(s, v0) {
                            None => None,
                            Some((x, ve)) => if ve <= v0 || ve > s.len() {
                                None
                            } else {
                                sp_canvas_size_after(s, ve, CanvasSizeAcc { width: Some(x), height: acc.height })
                            },
                        }
                    }
                } else if name == "height"@ {
                    if acc.height is Some {
                        None
                    } else {
                        match sp_parse_i32(s, v0) {
                            None => None,
                            Some((x, ve)) => if ve <= v0 || ve > s.len() {
                                None
                            } else {
                                sp_canvas_size_after(s, ve, CanvasSizeAcc { width: acc.width, height: Some(x) })
                            },
                        }
                    }
                } else {
                    None
                }
            },
        },
    }
}

pub open spec fn sp_canvas_size_after(s: Seq<char>, i: int, acc: CanvasSizeAcc) -> Option<(CanvasSizeV, int)>
    decreases s.len() - i,
{
    let j = ws_end(s, i);
    if 0 <= j && j < s.len() && s[j] == ',' {
        let k = ws_end(s, j + 1);
        if k <= i || k > s.len() {
            None
        } else {
            sp_canvas_size_members(s, k, acc)
        }
    } else if 0 <= j && j < s.len() && s[j] == '}' {
        sp_canvas_size_finish(acc, j + 1)
    } else {
        None
    }
}

pub open spec fn sp_parse_canvas_size(s: Seq<char>, i: int) -> Option<(CanvasSizeV, int)> {
    if 0 <= i && i < s.len() && s[i] == '{' {
        let j = ws_end(s, i + 1);
        if 0 <= j && j < s.len() && s[j] == '}' {
            sp_canvas_size_finish(CanvasSizeAcc { width: None, height: None }, j + 1)
        } else if j <= i || j > s.len() {
            None
        } else {
            sp_canvas_size_members(s, j, CanvasSizeAcc { width: None, height: None })
        }
    } else {
        None
    }
}

pub ghost struct StyleAcc {
    pub background_color: Option<Option<Seq<char>>>,
    pub border_color: Option<Option<Seq<char>>>,
    pub text_color: Option<Option<Seq<char>>>,
    pub font_size: Option<Option<int>>,
    pub font_family: Option<Option<Seq<char>>>,
    pub rotation: Option<Option<Seq<char>>>,
    pub opacity: Option<Option<Seq<char>>>,
}

pub open spec fn sp_style_finish(acc: StyleAcc, end: int) -> Option<(WidgetStyleV, int)> {
    Some((WidgetStyleV { background_color: opt_flat(acc.background_color), border_color: opt_flat(acc.border_color), text_color: opt_flat(acc.text_color), font_size: opt_flat(acc.font_size), font_family: opt_flat(acc.font_family), rotation: opt_flat(acc.rotation), opacity: opt_flat(acc.opacity) }, end))
}

pub open spec fn sp_style_members(s: Seq<char>, i: int, acc: StyleAcc) -> Option<(WidgetStyleV, int)>
    decreases s.len() - i,
{
    match sp_parse_string(s, i) {
        None => None,
        Some((name, n)) => match sp_after_colon(s, n) {
            None => None,
            Some(v0) => if v0 <= i || v0 > s.len() {
                None
            } else {
                if name == "background_color"@ {
                    if acc.background_color is Some {
                        None
                    } else {
                        match sp_parse_opt_string(s, v0) {
                            None => None,
                            Some((x, ve)) => if ve <= v0 || ve > s.len() {
                                None
                            } else {
                                sp_style_after(s, ve, StyleAcc { background_color: Some(x), border_color: acc.border_color, text_color: acc.text_color, font_size: acc.font_size, font_family: acc.font_family, rotation: acc.rotation, opacity: acc.opacity })
                            },
                        }
                    }
                } else if name == "border_color"@ {
                    if acc.border_color is Some {
                        None
                    } else {
                        match sp_parse_opt_string(s, v0) {
                            None => None,
                            Some((x, ve)) => if ve <= v0 || ve > s.len() {
                                None
                            } else {
                                sp_style_after(s, ve, StyleAcc { background_color: acc.background_color, border_color: Some(x), text_color: acc.text_color, font_size: acc.font_size, font_family: acc.font_family, rotation: acc.rotation, opacity: acc.opacity })
                            },
                        }
                    }
                } else if name == "text_color"@ {
                    if acc.text_color is Some {
                        None
                    } else {
                        match sp_parse_opt_string(s, v0) {
                            None => None,
                            Some((x, ve)) => if ve <= v0 || ve > s.len() {
                                None
                            } else {
                                sp_style_after(s, ve, StyleAcc { background_color: acc.background_color, border_color: acc.border_color, text_color: Some(x), font_size: acc.font_size, font_family: acc.font_family, rotation: acc.rotation, opacity: acc.opacity })
                            },
                        }
                    }
                } else if name == "font_size"@ {
                    if acc.font_size is Some {
                        None
                    } else {
                        match sp_parse_opt_i32(s, v0) {
                            None => None,
                            Some((x, ve)) => if ve <= v0 || ve > s.len() {
                                None
                            } else {
                                sp_style_after(s, ve, StyleAcc { background_color: acc.background_color, border_color: acc.border_color, text_color: acc.text_color, font_size: Some(x), font_family: acc.font_family, rotation: acc.rotation, opacity: acc.opacity })
                            },
                        }
                    }
                } else if name == "font_family"@ {
                    if acc.font_family is Some {
                        None
                    } else {
                        match sp_parse_opt_string(s, v0) {
                            None => None,
                            Some((x, ve)) => if ve <= v0 || ve > s.len() {
                                None
                            } else {
                                sp_style_after(s, ve, StyleAcc { background_color: acc.background_color, border_color: acc.border_color, text_color: acc.text_color, font_size: acc.font_size, font_family: Some(x), rotation: acc.rotation, opacity: acc.opacity })
                            },
                        }
                    }
                } else if name == "rotation"@ {
                    if acc.rotation is Some {
                        None
                    } else {
                        match sp_parse_opt_num(s, v0) {
                            None => None,
                            Some((x, ve)) => if ve <= v0 || ve > s.len() {
                                None
                            } else {
                                sp_style_after(s, ve, StyleAcc { background_color: acc.background_color, border_color: acc.border_color, text_color: acc.text_color, font_size: acc.font_size, font_family: acc.font_family, rotation: Some(x), opacity: acc.opacity })
                            },
                        }
                    }
                } else if name == "opacity"@ {
                    if acc.opacity is Some {
                        None
                    } else {
                        match sp_parse_opt_num(s, v0) {
                            None => None,
                            Some((x, ve)) => if ve <= v0 || ve > s.len() {
                                None
                            } else {
                                sp_style_after(s, ve, StyleAcc { background_color: acc.background_color, border_color: acc.border_color, text_color: acc.text_color, font_size: acc.font_size, font_family: acc.font_family, rotation: acc.rotation, opacity: Some(x) })
                            },
                        }
                    }
                } else {
                    None
                }
            },
        },
    }
}

pub open spec fn sp_style_after(s: Seq<char>, i: int, acc: StyleAcc) -> Option<(WidgetStyleV, int)>
    decreases s.len() - i,
{
    let j = ws_end(s, i);
    if 0 <= j && j < s.len() && s[j] == ',' {
        let k = ws_end(s, j + 1);
        if k <= i || k > s.len() {
            None
        } else {
            sp_style_members(s, k, acc)
        }
    } else if 0 <= j && j < s.len() && s[j] == '}' {
        sp_style_finish(acc, j + 1)
    } else {
        None
    }
}

pub open spec fn sp_parse_style(s: Seq<char>, i: int) -> Option<(WidgetStyleV, int)> {
    if 0 <= i && i < s.len() && s[i] == '{' {
        let j = ws_end(s, i + 1);
        if 0 <= j && j < s.len() && s[j] == '}' {
            sp_style_finish(StyleAcc { background_color: None, border_color: None, text_color: None, font_size: None, font_family: None, rotation: None, opacity: None }, j + 1)
        } else if j <= i || j > s.len() {
            None
        } else {
            sp_style_members(s, j, StyleAcc { background_color: None, border_color: None, text_color: None, font_size: None, font_family: None, rotation: None, opacity: None })
        }
    } else {
        None
    }
}

pub ghost struct SettingsAcc {
    pub background_color: Option<Seq<char>>,
    pub grid_enabled: Option<bool>,
    pub grid_size: Option<int>,
    pub snap_to_grid: Option<bool>,
    pub zoom_level: Option<Seq<char>>,
}

pub open spec fn sp_settings_finish(acc: SettingsAcc, end: int) -> Option<(CanvasSettingsV, int)> {
    if acc.background_color is Some && acc.grid_enabled is Some && acc.grid_size is Some && acc.snap_to_grid is Some && acc.zoom_level is Some {
        Some((CanvasSettingsV { background_color: acc.background_color.unwrap(), grid_enabled: acc.grid_enabled.unwrap(), grid_size: acc.grid_size.unwrap(), snap_to_grid: acc.snap_to_grid.unwrap(), zoom_level: acc.zoom_level.unwrap() }, end))
    } else {
        None
    }
}

pub open spec fn sp_settings_members(s: Seq<char>, i: int, acc: SettingsAcc) -> Option<(CanvasSettingsV, int)>
    decreases s.len() - i,
{
    match sp_parse_string(s, i) {
        None => None,
        Some((name, n)) => match sp_after_colon(s, n) {
            None => None,
            Some(v0) => if v0 <= i || v0 > s.len() {
                None
            } else {
                if name == "background_color"@ {
                    if acc.background_color is Some {
                        None
                    } else {
                        match sp_parse_string(s, v0) {
                            None => None,
                            Some((x, ve)) => if ve <= v0 || ve > s.len() {
                                None
                            } else {
                                sp_settings_after(s, ve, SettingsAcc { background_color: Some(x), grid_enabled: acc.grid_enabled, grid_size: acc.grid_size, snap_to_grid: acc.snap_to_grid, zoom_level: acc.zoom_level })
                            },
                        }
                    }
                } else if name == "grid_enabled"@ {
                    if acc.grid_enabled is Some {
                        None
                    } else {
                        match sp_parse_bool(s, v0) {
                            None => None,
                            Some((x, ve)) => if ve <= v0 || ve > s.len() {
                                None
                            } else {
                                sp_settings_after(s, ve, SettingsAcc { background_color: acc.background_color, grid_enabled: Some(x), grid_size: acc.grid_size, snap_to_grid: acc.snap_to_grid, zoom_level: acc.zoom_level })
                            },
                        }
                    }
                } else if name == "grid_size"@ {
                    if acc.grid_size is Some {
                        None
                    } else {
                        match sp_parse_i32(s, v0) {
                            None => None,
                            Some((x, ve)) => if ve <= v0 || ve > s.len() {
                                None
                            } else {
                                sp_settings_after(s, ve, SettingsAcc { background_color: acc.background_color, grid_enabled: acc.grid_enabled, grid_size: Some(x), snap_to_grid: acc.snap_to_grid, zoom_level: acc.zoom_level })
                            },
                        }
                    }
                } else if name == "snap_to_grid"@ {
                    if acc.snap_to_grid is Some {
                        None
                    } else {
                        match sp_parse_bool(s, v0) {
                            None => None,
                            Some((x, ve)) => if ve <= v0 || ve > s.len() {
                                None
                            } else {
                                sp_settings_after(s, ve, SettingsAcc { background_color: acc.background_color, grid_enabled: acc.grid_enabled, grid_size: acc.grid_size, snap_to_grid: Some(x), zoom_level: acc.zoom_level })
                            },
                        }
                    }
                } else if name == "zoom_level"@ {
                    if acc.zoom_level is Some {
                        None
                    } else {
                        match sp_parse_num(s, v0) {
                            None => None,
                            Some((x, ve)) => if ve <= v0 || ve > s.len() {
                                None
                            } else {
                                sp_settings_after(s, ve, SettingsAcc { background_color: acc.background_color, grid_enabled: acc.grid_enabled, grid_size: acc.grid_size, snap_to_grid: acc.snap_to_grid, zoom_level: Some(x) })
                            },
                        }
                    }
                } else {
                    None
                }
            },
        },
    }
}

pub open spec fn sp_settings_after(s: Seq<char>, i: int, acc: SettingsAcc) -> Option<(CanvasSettingsV, int)>
    decreases s.len() - i,
{
    let j = ws_end(s, i);
    if 0 <= j && j < s.len() && s[j] == ',' {
        let k = ws_end(s, j + 1);
        if k <= i || k > s.len() {
            None
        } else {
            sp_settings_members(s, k, acc)
        }
    } else if 0 <= j && j < s.len() && s[j] == '}' {
        sp_settings_finish(acc, j + 1)
    } else {
        None
    }
}

pub open spec fn sp_parse_settings(s: Seq<char>, i: int) -> Option<(CanvasSettingsV, int)> {
    if 0 <= i && i < s.len() && s[i] == '{' {
        let j = ws_end(s, i + 1);
        if 0 <= j && j < s.len() && s[j] == '}' {
            sp_settings_finish(SettingsAcc { background_color: None, grid_enabled: None, grid_size: None, snap_to_grid: None, zoom_level: None }, j + 1)
        } else if j <= i || j > s.len() {
            None
        } else {
            sp_settings_members(s, j, SettingsAcc { background_color: None, grid_enabled: None, grid_size: None, snap_to_grid: None, zoom_level: None })
        }
    } else {
        None
    }
}

pub ghost struct WidgetAcc {
    pub id: Option<Seq<char>>,
    pub widget_type: Option<Seq<char>>,
    pub content: Option<Seq<char>>,
    pub position: Option<PositionV>,
    pub size: Option<SizeV>,
    pub style: Option<WidgetStyleV>,
}

pub open spec fn sp_widget_finish(acc: WidgetAcc, end: int) -> Option<(WidgetV, int)> {
    if acc.id is Some && acc.widget_type is Some && acc.content is Some && acc.position is Some && acc.size is Some && acc.style is Some {
        Some((WidgetV { id: acc.id.unwrap(), widget_type: acc.widget_type.unwrap(), content: acc.content.unwrap(), position: acc.position.unwrap(), size: acc.size.unwrap(), style: acc.style.unwrap() }, end))
    } else {
        None
    }
}

pub open spec fn sp_widget_members(s: Seq<char>, i: int, acc: WidgetAcc) -> Option<(WidgetV, int)>
    decreases s.len() - i,
{
    match sp_parse_string(s, i) {
        None => None,
        Some((name, n)) => match sp_after_colon(s, n) {
            None => None,
            Some(v0) => if v0 <= i || v0 > s.len() {
                None
            } else {
                if name == "id"@ {
                    if acc.id is Some {
                        None
                    } else {
                        match sp_parse_string(s, v0) {
                            None => None,
                            Some((x, ve)) => if ve <= v0 || ve > s.len() {
                                None
                            } else {
                                sp_widget_after(s, ve, WidgetAcc { id: Some(x), widget_type: acc.widget_type, content: acc.content, position: acc.position, size: acc.size, style: acc.style })
                            },
                        }
                    }
                } else if name == "widget_type"@ {
                    if acc.widget_type is Some {
                        None
                    } else {
                        match sp_parse_string(s, v0) {
                            None => None,
                            Some((x, ve)) => if ve <= v0 || ve > s.len() {
                                None
                            } else {
                                sp_widget_after(s, ve, WidgetAcc { id: acc.id, widget_type: Some(x), content: acc.content, position: acc.position, size: acc.size, style: acc.style })
                            },
                        }
                    }
                } else if name == "content"@ {
                    if acc.content is Some {
                        None
                    } else {
                        match sp_parse_string(s, v0) {
                            None => None,
                            Some((x, ve)) => if ve <= v0 || ve > s.len() {
                                None
                            } else {
                                sp_widget_after(s, ve, WidgetAcc { id: acc.id, widget_type: acc.widget_type, content: Some(x), position: acc.position, size: acc.size, style: acc.style })
                            },
                        }
                    }
                } else if name == "position"@ {
                    if acc.position is Some {
                        None
                    } else {
                        match sp_parse_position(s, v0) {
                            None => None,
                            Some((x, ve)) => if ve <= v0 || ve > s.len() {
                                None
                            } else {
                                sp_widget_after(s, ve, WidgetAcc { id: acc.id, widget_type: acc.widget_type, content: acc.content, position: Some(x), size: acc.size, style: acc.style })
                            },
                        }
                    }
                } else if name == "size"@ {
                    if acc.size is Some {
                        None
                    } else {
                        match sp_parse_size(s, v0) {
                            None => None,
                            Some((x, ve)) => if ve <= v0 || ve > s.len() {
                                None
                            } else {
                                sp_widget_after(s, ve, WidgetAcc { id: acc.id, widget_type: acc.widget_type, content: acc.content, position: acc.position, size: Some(x), style: acc.style })
                            },
                        }
                    }
                } else if name == "style"@ {
                    if acc.style is Some {
                        None
                    } else {
                        match sp_parse_style(s, v0) {
                            None => None,
                            Some((x, ve)) => if ve <= v0 || ve > s.len() {
                                None
                            } else {
                                sp_widget_after(s, ve, WidgetAcc { id: acc.id, widget_type: acc.widget_type, content: acc.content, position: acc.position, size: acc.size, style: Some(x) })
                            },
                        }
                    }
                } else {
                    None
                }
            },
        },
    }
}

pub open spec fn sp_widget_after(s: Seq<char>, i: int, acc: WidgetAcc) -> Option<(WidgetV, int)>
    decreases s.len() - i,
{
    let j = ws_end(s, i);
    if 0 <= j && j < s.len() && s[j] == ',' {
        let k = ws_end(s, j + 1);
        if k <= i || k > s.len() {
            None
        } else {
            sp_widget_members(s, k, acc)
        }
    } else if 0 <= j && j < s.len() && s[j] == '}' {
        sp_widget_finish(acc, j + 1)
    } else {
        None
    }
}

pub open spec fn sp_parse_widget(s: Seq<char>, i: int) -> Option<(WidgetV, int)> {
    if 0 <= i && i < s.len() && s[i] == '{' {
        let j = ws_end(s, i + 1);
        if 0 <= j && j < s.len() && s[j] == '}' {
            sp_widget_finish(WidgetAcc { id: None, widget_type: None, content: None, position: None, size: None, style: None }, j + 1)
        } else if j <= i || j > s.len() {
            None
        } else {
            sp_widget_members(s, j, WidgetAcc { id: None, widget_type: None, content: None, position: None, size: None, style: None })
        }
    } else {
        None
    }
}

pub ghost struct DocobjAcc {
    pub theme: Option<Seq<char>>,
    pub settings: Option<CanvasSettingsV>,
    pub widgets: Option<Seq<WidgetV>>,
    pub canvas_size: Option<CanvasSizeV>,
}

pub open spec fn sp_docobj_finish(acc: DocobjAcc, end: int) -> Option<(CanvasDataV, int)> {
    if acc.theme is Some && acc.settings is Some && acc.widgets is Some && acc.canvas_size is Some {
        Some((CanvasDataV { theme: acc.theme.unwrap(), settings: acc.settings.unwrap(), widgets: acc.widgets.unwrap(), canvas_size: acc.canvas_size.unwrap() }, end))
    } else {
        None
    }
}

pub open spec fn sp_docobj_members(s: Seq<char>, i: int, acc: DocobjAcc) -> Option<(CanvasDataV, int)>
    decreases s.len() - i,
{
    match sp_parse_string(s, i) {
        None => None,
        Some((name, n)) => match sp_after_colon(s, n) {
            None => None,
            Some(v0) => if v0 <= i || v0 > s.len() {
                None
            } else {
                if name == "theme"@ {
                    if acc.theme is Some {
                        None
                    } else {
                        match sp_parse_string(s, v0) {
                            None => None,
                            Some((x, ve)) => if ve <= v0 || ve > s.len() {
                                None
                            } else {
                                sp_docobj_after(s, ve, DocobjAcc { theme: Some(x), settings: acc.settings, widgets: acc.widgets, canvas_size: acc.canvas_size })
                            },
                        }
                    }
                } else if name == "settings"@ {
                    if acc.settings is Some {
                        None
                    } else {
                        match sp_parse_settings(s, v0) {
                            None => None,
                            Some((x, ve)) => if ve <= v0 || ve > s.len() {
                                None
                            } else {
                                sp_docobj_after(s, ve, DocobjAcc { theme: acc.theme, settings: Some(x), widgets: acc.widgets, canvas_size: acc.canvas_size })
                            },
                        }
                    }
                } else if name == "widgets"@ {
                    if acc.widgets is Some {
                        None
                    } else {
                        match sp_parse_widgets(s, v0) {
                            None => None,
                            Some((x, ve)) => if ve <= v0 || ve > s.len() {
                                None
                            } else {
                                sp_docobj_after(s, ve, DocobjAcc { theme: acc.theme, settings: acc.settings, widgets: Some(x), canvas_size: acc.canvas_size })
                            },
                        }
                    }
                } else if name == "canvas_size"@ {
                    if acc.canvas_size is Some {
                        None
                    } else {
                        match sp_parse_canvas_size(s, v0) {
                            None => None,
                            Some((x, ve)) => if ve <= v0 || ve > s.len() {
                                None
                            } else {
                                sp_docobj_after(s, ve, DocobjAcc { theme: acc.theme, settings: acc.settings, widgets: acc.widgets, canvas_size: Some(x) })
                            },
                        }
                    }
                } else {
                    None
                }
            },
        },
    }
}

pub open spec fn sp_docobj_after(s: Seq<char>, i: int, acc: DocobjAcc) -> Option<(CanvasDataV, int)>
    decreases s.len() - i,
{
    let j = ws_end(s, i);
    if 0 <= j && j < s.len() && s[j] == ',' {
        let k = ws_end(s, j + 1);
        if k <= i || k > s.len() {
            None
        } else {
            sp_docobj_members(s, k, acc)
        }
    } else if 0 <= j && j < s.len() && s[j] == '}' {
        sp_docobj_finish(acc, j + 1)
    } else {
        None
    }
}

pub open spec fn sp_parse_docobj(s: Seq<char>, i: int) -> Option<(CanvasDataV, int)> {
    if 0 <= i && i < s.len() && s[i] == '{' {
        let j = ws_end(s, i + 1);
        if 0 <= j && j < s.len() && s[j] == '}' {
            sp_docobj_finish(DocobjAcc { theme: None, settings: None, widgets: None, canvas_size: None }, j + 1)
        } else if j <= i || j > s.len() {
            None
        } else {
            sp_docobj_members(s, j, DocobjAcc { theme: None, settings: None, widgets: None, canvas_size: None })
        }
    } else {
        None
    }
}


/// Reading the widget list: brackets around comma-separated widgets,
/// with any whitespace.
pub open spec fn sp_parse_widgets(s: Seq<char>, i: int) -> Option<(Seq<WidgetV>, int)> {
    if 0 <= i && i < s.len() && s[i] == '[' {
        let j = ws_end(s, i + 1);
        if 0 <= j && j < s.len() && s[j] == ']' {
            Some((Seq::empty(), j + 1))
        } else if j <= i || j > s.len() {
            None
        } else {
            sp_widgets_items(s, j, Seq::empty())
        }
    } else {
        None
    }
}

/// Reading the items of a nonempty widget list, one per step.
pub open spec fn sp_widgets_items(s: Seq<char>, i: int, acc: Seq<WidgetV>) -> Option<
    (Seq<WidgetV>, int),
>
    decreases s.len() - i,
{
    match sp_parse_widget(s, i) {
        None => None,
        Some((w, p)) => if p <= i || p > s.len() {
            None
        } else {
            let j = ws_end(s, p);
            if 0 <= j && j < s.len() && s[j] == ',' {
                let k = ws_end(s, j + 1);
                if k <= i || k > s.len() {
                    None
                } else {
                    sp_widgets_items(s, k, acc.push(w))
                }
            } else if 0 <= j && j < s.len() && s[j] == ']' {
                Some((acc.push(w), j + 1))
            } else {
                None
            }
        },
    }
}

/// Reading a whole document: the document object, with whitespace
/// allowed around it, to the last character.
pub open spec fn sp_parse_doc(s: Seq<char>) -> Option<CanvasDataV> {
    match sp_parse_docobj(s, ws_end(s, 0)) {
        None => None,
        Some((d, p)) => if ws_end(s, p) == s.len() {
            Some(d)
        } else {
            None
        },
    }
}

/// Reads a boolean field.
fn parse_bool(s: &Vec<char>, i: usize) -> (r: Option<(bool, usize)>)
    ensures
        match r {
            Some(x) => sp_parse_bool(s@, i as int) == Some((x.0, x.1 as int)) && x.1 <= s@.len(),
            None => sp_parse_bool(s@, i as int) is None,
        },
{
    match expect_lit(s, i, "true") {
        Some(j) => Some((true, j)),
        None => match expect_lit(s, i, "false") {
            Some(j) => Some((false, j)),
            None => None,
        },
    }
}

/// Reads a number field into a `Num`.
fn parse_num_field(s: &Vec<char>, i: usize) -> (r: Option<(Num, usize)>)
    requires
        i <= s@.len(),
    ensures
        match r {
            Some(x) => sp_parse_num(s@, i as int) == Some((x.0@, x.1 as int)) && x.0.wf() && i
                <= x.1 <= s@.len(),
            None => sp_parse_num(s@, i as int) is None,
        },
{
    let j = scan_num_end(s, i);
    let mut t: Vec<char> = Vec::new();
    let mut text = String::new();
    let mut k = i;
    while k < j
        invariant
            i <= k <= j <= s@.len(),
            t@ == s@.subrange(i as int, k as int),
            text@ == t@,
        decreases j - k,
    {
        proof {
            assert(s@.subrange(i as int, k + 1) =~= s@.subrange(i as int, k as int).push(
                s@[k as int],
            ));
        }
        t.push(s[k]);
        push_char(&mut text, s[k]);
        k += 1;
    }
    if check_number_text(&t) {
        Some((Num::from_text(text), j))
    } else {
        None
    }
}

/// Reads an optional string field.
fn parse_opt_string(s: &Vec<char>, i: usize) -> (r: Option<(Option<String>, usize)>)
    ensures
        match r {
            Some(x) => sp_parse_opt_string(s@, i as int) == Some((opt_view(x.0), x.1 as int))
                && x.1 <= s@.len(),
            None => sp_parse_opt_string(s@, i as int) is None,
        },
{
    match expect_lit(s, i, "null") {
        Some(j) => Some((None, j)),
        None => match parse_string(s, i) {
            Some((x, j)) => Some((Some(x), j)),
            None => None,
        },
    }
}

/// Reads an optional integer field.
fn parse_opt_i32(s: &Vec<char>, i: usize) -> (r: Option<(Option<i32>, usize)>)
    requires
        i <= s@.len(),
    ensures
        match r {
            Some(x) => sp_parse_opt_i32(s@, i as int) == Some((opt_i32_view(x.0), x.1 as int))
                && x.1 <= s@.len(),
            None => sp_parse_opt_i32(s@, i as int) is None,
        },
{
    match expect_lit(s, i, "null") {
        Some(j) => Some((None, j)),
        None => match parse_i32(s, i) {
            Some((v, j)) => Some((Some(v), j)),
            None => None,
        },
    }
}

/// Reads an optional number field.
fn parse_opt_num(s: &Vec<char>, i: usize) -> (r: Option<(Option<Num>, usize)>)
    requires
        i <= s@.len(),
    ensures
        match r {
            Some(x) => sp_parse_opt_num(s@, i as int) == Some((opt_num_view(x.0), x.1 as int))
                && (x.0 matches Some(n) ==> n.wf()) && x.1 <= s@.len(),
            None => sp_parse_opt_num(s@, i as int) is None,
        },
{
    match expect_lit(s, i, "null") {
        Some(j) => Some((None, j)),
        None => match parse_num_field(s, i) {
            Some((n, j)) => Some((Some(n), j)),
            None => None,
        },
    }
}

fn parse_position(s: &Vec<char>, i: usize) -> (r: Option<(Position, usize)>)
    requires
        i <= s@.len(),
    ensures
        match r {
            Some(x) => sp_parse_position(s@, i as int) == Some((x.0@, x.1 as int)) && x.0@.wf()
                && x.1 <= s@.len(),
            None => sp_parse_position(s@, i as int) is None,
        },
{
    if i >= s.len() || s[i] != '{' {
        return None;
    }
    let start = skip_ws(s, i + 1);
    let mut l_x: Option<Num> = None;
    let mut l_y: Option<Num> = None;
    if start < s.len() && s[start] == '}' {
        return None;
    }
    let mut cur = start;
    loop
        invariant
            i < s@.len(),
            s@[i as int] == '{',
            i < cur <= s@.len(),
            sp_parse_position(s@, i as int) == sp_position_members(s@, cur as int, PositionAcc { x: (match &l_x { Some(v) => Some(v@), None => None }), y: (match &l_y { Some(v) => Some(v@), None => None }) }),
            (match &l_x { Some(v) => v.wf(), None => true }),
            (match &l_y { Some(v) => v.wf(), None => true }),
        decreases s@.len() - cur,
    {
        let ghost acc0 = PositionAcc { x: (match &l_x { Some(v) => Some(v@), None => None }), y: (match &l_y { Some(v) => Some(v@), None => None }) };
        let ghost cur0 = cur as int;
        let (name, n) = match parse_string(s, cur) {
            Some(x) => x,
            None => {
                return None;
            },
        };
        let j = skip_ws(s, n);
        if j >= s.len() || s[j] != ':' {
            proof {
                assert(sp_after_colon(s@, n as int) is None);
            }
            return None;
        }
        let v0 = skip_ws(s, j + 1);
        proof {
            assert(sp_after_colon(s@, n as int) == Some(v0 as int));
        }
        if v0 <= cur || v0 > s.len() {
            return None;
        }
        let mut vend: usize = 0;
        if name == String::from_str("x") {
            if l_x.is_some() {
                return None;
            }
            let (x, ve) = match parse_num_field(s, v0) {
                Some(x) => x,
                None => {
                    return None;
                },
            };
            if ve <= v0 || ve > s.len() {
                return None;
            }
            l_x = Some(x);
            vend = ve;
        } else if name == String::from_str("y") {
            if l_y.is_some() {
                return None;
            }
            let (x, ve) = match parse_num_field(s, v0) {
                Some(x) => x,
                None => {
                    return None;
                },
            };
            if ve <= v0 || ve > s.len() {
                return None;
            }
            l_y = Some(x);
            vend = ve;
        } else {
            return None;
        }
        proof {
            assert(sp_position_members(s@, cur0, acc0) == sp_position_after(s@, vend as int, PositionAcc { x: (match &l_x { Some(v) => Some(v@), None => None }), y: (match &l_y { Some(v) => Some(v@), None => None }) }));
        }
        let j2 = skip_ws(s, vend);
        if j2 < s.len() && s[j2] == ',' {
            let k2 = skip_ws(s, j2 + 1);
            if k2 <= vend || k2 > s.len() {
                return None;
            }
            proof {
                assert(sp_position_after(s@, vend as int, PositionAcc { x: (match &l_x { Some(v) => Some(v@), None => None }), y: (match &l_y { Some(v) => Some(v@), None => None }) }) == sp_position_members(s@, k2 as int, PositionAcc { x: (match &l_x { Some(v) => Some(v@), None => None }), y: (match &l_y { Some(v) => Some(v@), None => None }) }));
            }
            cur = k2;
        } else if j2 < s.len() && s[j2] == '}' {
            match (l_x, l_y) {
                (Some(x_x), Some(x_y)) => {
                    let out = Position { x: x_x, y: x_y };
                    return Some((out, j2 + 1));
                },
                _ => {
                    return None;
                },
            }
        } else {
            return None;
        }
    }
}

fn parse_size(s: &Vec<char>, i: usize) -> (r: Option<(Size, usize)>)
    requires
        i <= s@.len(),
    ensures
        match r {
            Some(x) => sp_parse_size(s@, i as int) == Some((x.0@, x.1 as int)) && x.0@.wf()
                && x.1 <= s@.len(),
            None => sp_parse_size(s@, i as int) is None,
        },
{
    if i >= s.len() || s[i] != '{' {
        return None;
    }
    let start = skip_ws(s, i + 1);
    let mut l_width: Option<Num> = None;
    let mut l_height: Option<Num> = None;
    if start < s.len() && s[start] == '}' {
        return None;
    }
    let mut cur = start;
    loop
        invariant
            i < s@.len(),
            s@[i as int] == '{',
            i < cur <= s@.len(),
            sp_parse_size(s@, i as int) == sp_size_members(s@, cur as int, SizeAcc { width: (match &l_width { Some(v) => Some(v@), None => None }), height: (match &l_height { Some(v) => Some(v@), None => None }) }),
            (match &l_width { Some(v) => v.wf(), None => true }),
            (match &l_height { Some(v) => v.wf(), None => true }),
        decreases s@.len() - cur,
    {
        let ghost acc0 = SizeAcc { width: (match &l_width { Some(v) => Some(v@), None => None }), height: (match &l_height { Some(v) => Some(v@), None => None }) };
        let ghost cur0 = cur as int;
        let (name, n) = match parse_string(s, cur) {
            Some(x) => x,
            None => {
                return None;
            },
        };
        let j = skip_ws(s, n);
        if j >= s.len() || s[j] != ':' {
            proof {
                assert(sp_after_colon(s@, n as int) is None);
            }
            return None;
        }
        let v0 = skip_ws(s, j + 1);
        proof {
            assert(sp_after_colon(s@, n as int) == Some(v0 as int));
        }
        if v0 <= cur || v0 > s.len() {
            return None;
        }
        let mut vend: usize = 0;
        if name == String::from_str("width") {
            if l_width.is_some() {
                return None;
            }
            let (x, ve) = match parse_num_field(s, v0) {
                Some(x) => x,
                None => {
                    return None;
                },
            };
            if ve <= v0 || ve > s.len() {
                return None;
            }
            l_width = Some(x);
            vend = ve;
        } else if name == String::from_str("height") {
            if l_height.is_some() {
                return None;
            }
            let (x, ve) = match parse_num_field(s, v0) {
                Some(x) => x,
                None => {
                    return None;
                },
            };
            if ve <= v0 || ve > s.len() {
                return None;
            }
            l_height = Some(x);
            vend = ve;
        } else {
            return None;
        }
        proof {
            assert(sp_size_members(s@, cur0, acc0) == sp_size_after(s@, vend as int, SizeAcc { width: (match &l_width { Some(v) => Some(v@), None => None }), height: (match &l_height { Some(v) => Some(v@), None => None }) }));
        }
        let j2 = skip_ws(s, vend);
        if j2 < s.len() && s[j2] == ',' {
            let k2 = skip_ws(s, j2 + 1);
            if k2 <= vend || k2 > s.len() {
                return None;
            }
            proof {
                assert(sp_size_after(s@, vend as int, SizeAcc { width: (match &l_width { Some(v) => Some(v@), None => None }), height: (match &l_height { Some(v) => Some(v@), None => None }) }) == sp_size_members(s@, k2 as int, SizeAcc { width: (match &l_width { Some(v) => Some(v@), None => None }), height: (match &l_height { Some(v) => Some(v@), None => None }) }));
            }
            cur = k2;
        } else if j2 < s.len() && s[j2] == '}' {
            match (l_width, l_height) {
                (Some(x_width), Some(x_height)) => {
                    let out = Size { width: x_width, height: x_height };
                    return Some((out, j2 + 1));
                },
                _ => {
                    return None;
                },
            }
        } else {
            return None;
        }
    }
}

fn parse_canvas_size(s: &Vec<char>, i: usize) -> (r: Option<(CanvasSize, usize)>)
    requires
        i <= s@.len(),
    ensures
        match r {
            Some(x) => sp_parse_canvas_size(s@, i as int) == Some((x.0@, x.1 as int)) && x.0@.wf()
                && x.1 <= s@.len(),
            None => sp_parse_canvas_size(s@, i as int) is None,
        },
{
    if i >= s.len() || s[i] != '{' {
        return None;
    }
    let start = skip_ws(s, i + 1);
    let mut l_width: Option<i32> = None;
    let mut l_height: Option<i32> = None;
    if start < s.len() && s[start] == '}' {
        return None;
    }
    let mut cur = start;
    loop
        invariant
            i < s@.len(),
            s@[i as int] == '{',
            i < cur <= s@.len(),
            sp_parse_canvas_size(s@, i as int) == sp_canvas_size_members(s@, cur as int, CanvasSizeAcc { width: (match &l_width { Some(v) => Some(*v as int), None => None }), height: (match &l_height { Some(v) => Some(*v as int), None => None }) }),
        decreases s@.len() - cur,
    {
        let ghost acc0 = CanvasSizeAcc { width: (match &l_width { Some(v) => Some(*v as int), None => None }), height: (match &l_height { Some(v) => Some(*v as int), None => None }) };
        let ghost cur0 = cur as int;
        let (name, n) = match parse_string(s, cur) {
            Some(x) => x,
            None => {
                return None;
            },
        };
        let j = skip_ws(s, n);
        if j >= s.len() || s[j] != ':' {
            proof {
                assert(sp_after_colon(s@, n as int) is None);
            }
            return None;
        }
        let v0 = skip_ws(s, j + 1);
        proof {
            assert(sp_after_colon(s@, n as int) == Some(v0 as int));
        }
        if v0 <= cur || v0 > s.len() {
            return None;
        }
        let mut vend: usize = 0;
        if name == String::from_str("width") {
            if l_width.is_some() {
                return None;
            }
            let (x, ve) = match parse_i32(s, v0) {
                Some(x) => x,
                None => {
                    return None;
                },
            };
            if ve <= v0 || ve > s.len() {
                return None;
            }
            l_width = Some(x);
            vend = ve;
        } else if name == String::from_str("height") {
            if l_height.is_some() {
                return None;
            }
            let (x, ve) = match parse_i32(s, v0) {
                Some(x) => x,
                None => {
                    return None;
                },
            };
            if ve <= v0 || ve > s.len() {
                return None;
            }
            l_height = Some(x);
            vend = ve;
        } else {
            return None;
        }
        proof {
            assert(sp_canvas_size_members(s@, cur0, acc0) == sp_canvas_size_after(s@, vend as int, CanvasSizeAcc { width: (match &l_width { Some(v) => Some(*v as int), None => None }), height: (match &l_height { Some(v) => Some(*v as int), None => None }) }));
        }
        let j2 = skip_ws(s, vend);
        if j2 < s.len() && s[j2] == ',' {
            let k2 = skip_ws(s, j2 + 1);
            if k2 <= vend || k2 > s.len() {
                return None;
            }
            proof {
                assert(sp_canvas_size_after(s@, vend as int, CanvasSizeAcc { width: (match &l_width { Some(v) => Some(*v as int), None => None }), height: (match &l_height { Some(v) => Some(*v as int), None => None }) }) == sp_canvas_size_members(s@, k2 as int, CanvasSizeAcc { width: (match &l_width { Some(v) => Some(*v as int), None => None }), height: (match &l_height { Some(v) => Some(*v as int), None => None }) }));
            }
            cur = k2;
        } else if j2 < s.len() && s[j2] == '}' {
            match (l_width, l_height) {
                (Some(x_width), Some(x_height)) => {
                    let out = CanvasSize { width: x_width, height: x_height };
                    return Some((out, j2 + 1));
                },
                _ => {
                    return None;
                },
            }
        } else {
            return None;
        }
    }
}

#[verifier::rlimit(100)]
#[verifier::spinoff_prover]
fn parse_style(s: &Vec<char>, i: usize) -> (r: Option<(WidgetStyle, usize)>)
    requires
        i <= s@.len(),
    ensures
        match r {
            Some(x) => sp_parse_style(s@, i as int) == Some((x.0@, x.1 as int)) && x.0@.wf()
                && x.1 <= s@.len(),
            None => sp_parse_style(s@, i as int) is None,
        },
{
    if i >= s.len() || s[i] != '{' {
        return None;
    }
    let start = skip_ws(s, i + 1);
    let mut l_background_color: Option<Option<String>> = None;
    let mut l_border_color: Option<Option<String>> = None;
    let mut l_text_color: Option<Option<String>> = None;
    let mut l_font_size: Option<Option<i32>> = None;
    let mut l_font_family: Option<Option<String>> = None;
    let mut l_rotation: Option<Option<Num>> = None;
    let mut l_opacity: Option<Option<Num>> = None;
    if start < s.len() && s[start] == '}' {
        let out = WidgetStyle { background_color: None, border_color: None, text_color: None, font_size: None, font_family: None, rotation: None, opacity: None };
        proof {
            assert(sp_parse_style(s@, i as int) == Some((out@, start as int + 1)));
        }
        return Some((out, start + 1));
    }
    let mut cur = start;
    loop
        invariant
            i < s@.len(),
            s@[i as int] == '{',
            i < cur <= s@.len(),
            sp_parse_style(s@, i as int) == sp_style_members(s@, cur as int, StyleAcc { background_color: (match &l_background_color { Some(v) => Some(opt_view(*v)), None => None }), border_color: (match &l_border_color { Some(v) => Some(opt_view(*v)), None => None }), text_color: (match &l_text_color { Some(v) => Some(opt_view(*v)), None => None }), font_size: (match &l_font_size { Some(v) => Some(opt_i32_view(*v)), None => None }), font_family: (match &l_font_family { Some(v) => Some(opt_view(*v)), None => None }), rotation: (match &l_rotation { Some(v) => Some(opt_num_view(*v)), None => None }), opacity: (match &l_opacity { Some(v) => Some(opt_num_view(*v)), None => None }) }),
            (match &l_rotation { Some(v) => (v matches Some(n) ==> n.wf()), None => true }),
            (match &l_opacity { Some(v) => (v matches Some(n) ==> n.wf()), None => true }),
        decreases s@.len() - cur,
    {
        let ghost acc0 = StyleAcc { background_color: (match &l_background_color { Some(v) => Some(opt_view(*v)), None => None }), border_color: (match &l_border_color { Some(v) => Some(opt_view(*v)), None => None }), text_color: (match &l_text_color { Some(v) => Some(opt_view(*v)), None => None }), font_size: (match &l_font_size { Some(v) => Some(opt_i32_view(*v)), None => None }), font_family: (match &l_font_family { Some(v) => Some(opt_view(*v)), None => None }), rotation: (match &l_rotation { Some(v) => Some(opt_num_view(*v)), None => None }), opacity: (match &l_opacity { Some(v) => Some(opt_num_view(*v)), None => None }) };
        let ghost cur0 = cur as int;
        let (name, n) = match parse_string(s, cur) {
            Some(x) => x,
            None => {
                return None;
            },
        };
        let j = skip_ws(s, n);
        if j >= s.len() || s[j] != ':' {
            proof {
                assert(sp_after_colon(s@, n as int) is None);
            }
            return None;
        }
        let v0 = skip_ws(s, j + 1);
        proof {
            assert(sp_after_colon(s@, n as int) == Some(v0 as int));
        }
        if v0 <= cur || v0 > s.len() {
            return None;
        }
        let mut vend: usize = 0;
        if name == String::from_str("background_color") {
            if l_background_color.is_some() {
                return None;
            }
            let (x, ve) = match parse_opt_string(s, v0) {
                Some(x) => x,
                None => {
                    return None;
                },
            };
            if ve <= v0 || ve > s.len() {
                return None;
            }
            l_background_color = Some(x);
            vend = ve;
        } else if name == String::from_str("border_color") {
            if l_border_color.is_some() {
                return None;
            }
            let (x, ve) = match parse_opt_string(s, v0) {
                Some(x) => x,
                None => {
                    return None;
                },
            };
            if ve <= v0 || ve > s.len() {
                return None;
            }
            l_border_color = Some(x);
            vend = ve;
        } else if name == String::from_str("text_color") {
            if l_text_color.is_some() {
                return None;
            }
            let (x, ve) = match parse_opt_string(s, v0) {
                Some(x) => x,
                None => {
                    return None;
                },
            };
            if ve <= v0 || ve > s.len() {
                return None;
            }
            l_text_color = Some(x);
            vend = ve;
        } else if name == String::from_str("font_size") {
            if l_font_size.is_some() {
                return None;
            }
            let (x, ve) = match parse_opt_i32(s, v0) {
                Some(x) => x,
                None => {
                    return None;
                },
            };
            if ve <= v0 || ve > s.len() {
                return None;
            }
            l_font_size = Some(x);
            vend = ve;
        } else if name == String::from_str("font_family") {
            if l_font_family.is_some() {
                return None;
            }
            let (x, ve) = match parse_opt_string(s, v0) {
                Some(x) => x,
                None => {
                    return None;
                },
            };
            if ve <= v0 || ve > s.len() {
                return None;
            }
            l_font_family = Some(x);
            vend = ve;
        } else if name == String::from_str("rotation") {
            if l_rotation.is_some() {
                return None;
            }
            let (x, ve) = match parse_opt_num(s, v0) {
                Some(x) => x,
                None => {
                    return None;
                },
            };
            if ve <= v0 || ve > s.len() {
                return None;
            }
            l_rotation = Some(x);
            vend = ve;
        } else if name == String::from_str("opacity") {
            if l_opacity.is_some() {
                return None;
            }
            let (x, ve) = match parse_opt_num(s, v0) {
                Some(x) => x,
                None => {
                    return None;
                },
            };
            if ve <= v0 || ve > s.len() {
                return None;
            }
            l_opacity = Some(x);
            vend = ve;
        } else {
            return None;
        }
        proof {
            assert(sp_style_members(s@, cur0, acc0) == sp_style_after(s@, vend as int, StyleAcc { background_color: (match &l_background_color { Some(v) => Some(opt_view(*v)), None => None }), border_color: (match &l_border_color { Some(v) => Some(opt_view(*v)), None => None }), text_color: (match &l_text_color { Some(v) => Some(opt_view(*v)), None => None }), font_size: (match &l_font_size { Some(v) => Some(opt_i32_view(*v)), None => None }), font_family: (match &l_font_family { Some(v) => Some(opt_view(*v)), None => None }), rotation: (match &l_rotation { Some(v) => Some(opt_num_view(*v)), None => None }), opacity: (match &l_opacity { Some(v) => Some(opt_num_view(*v)), None => None }) }));
        }
        let j2 = skip_ws(s, vend);
        if j2 < s.len() && s[j2] == ',' {
            let k2 = skip_ws(s, j2 + 1);
            if k2 <= vend || k2 > s.len() {
                return None;
            }
            proof {
                assert(sp_style_after(s@, vend as int, StyleAcc { background_color: (match &l_background_color { Some(v) => Some(opt_view(*v)), None => None }), border_color: (match &l_border_color { Some(v) => Some(opt_view(*v)), None => None }), text_color: (match &l_text_color { Some(v) => Some(opt_view(*v)), None => None }), font_size: (match &l_font_size { Some(v) => Some(opt_i32_view(*v)), None => None }), font_family: (match &l_font_family { Some(v) => Some(opt_view(*v)), None => None }), rotation: (match &l_rotation { Some(v) => Some(opt_num_view(*v)), None => None }), opacity: (match &l_opacity { Some(v) => Some(opt_num_view(*v)), None => None }) }) == sp_style_members(s@, k2 as int, StyleAcc { background_color: (match &l_background_color { Some(v) => Some(opt_view(*v)), None => None }), border_color: (match &l_border_color { Some(v) => Some(opt_view(*v)), None => None }), text_color: (match &l_text_color { Some(v) => Some(opt_view(*v)), None => None }), font_size: (match &l_font_size { Some(v) => Some(opt_i32_view(*v)), None => None }), font_family: (match &l_font_family { Some(v) => Some(opt_view(*v)), None => None }), rotation: (match &l_rotation { Some(v) => Some(opt_num_view(*v)), None => None }), opacity: (match &l_opacity { Some(v) => Some(opt_num_view(*v)), None => None }) }));
            }
            cur = k2;
        } else if j2 < s.len() && s[j2] == '}' {
            let out = WidgetStyle {
                background_color: match l_background_color { Some(v) => v, None => None },
                border_color: match l_border_color { Some(v) => v, None => None },
                text_color: match l_text_color { Some(v) => v, None => None },
                font_size: match l_font_size { Some(v) => v, None => None },
                font_family: match l_font_family { Some(v) => v, None => None },
                rotation: match l_rotation { Some(v) => v, None => None },
                opacity: match l_opacity { Some(v) => v, None => None },
            };
            return Some((out, j2 + 1));
        } else {
            return None;
        }
    }
}

#[verifier::rlimit(100)]
#[verifier::spinoff_prover]
fn parse_settings(s: &Vec<char>, i: usize) -> (r: Option<(CanvasSettings, usize)>)
    requires
        i <= s@.len(),
    ensures
        match r {
            Some(x) => sp_parse_settings(s@, i as int) == Some((x.0@, x.1 as int)) && x.0@.wf()
                && x.1 <= s@.len(),
            None => sp_parse_settings(s@, i as int) is None,
        },
{
    if i >= s.len() || s[i] != '{' {
        return None;
    }
    let start = skip_ws(s, i + 1);
    let mut l_background_color: Option<String> = None;
    let mut l_grid_enabled: Option<bool> = None;
    let mut l_grid_size: Option<i32> = None;
    let mut l_snap_to_grid: Option<bool> = None;
    let mut l_zoom_level: Option<Num> = None;
    if start < s.len() && s[start] == '}' {
        return None;
    }
    let mut cur = start;
    loop
        invariant
            i < s@.len(),
            s@[i as int] == '{',
            i < cur <= s@.len(),
            sp_parse_settings(s@, i as int) == sp_settings_members(s@, cur as int, SettingsAcc { background_color: (match &l_background_color { Some(v) => Some(v@), None => None }), grid_enabled: (match &l_grid_enabled { Some(v) => Some(*v), None => None }), grid_size: (match &l_grid_size { Some(v) => Some(*v as int), None => None }), snap_to_grid: (match &l_snap_to_grid { Some(v) => Some(*v), None => None }), zoom_level: (match &l_zoom_level { Some(v) => Some(v@), None => None }) }),
            (match &l_zoom_level { Some(v) => v.wf(), None => true }),
        decreases s@.len() - cur,
    {
        let ghost acc0 = SettingsAcc { background_color: (match &l_background_color { Some(v) => Some(v@), None => None }), grid_enabled: (match &l_grid_enabled { Some(v) => Some(*v), None => None }), grid_size: (match &l_grid_size { Some(v) => Some(*v as int), None => None }), snap_to_grid: (match &l_snap_to_grid { Some(v) => Some(*v), None => None }), zoom_level: (match &l_zoom_level { Some(v) => Some(v@), None => None }) };
        let ghost cur0 = cur as int;
        let (name, n) = match parse_string(s, cur) {
            Some(x) => x,
            None => {
                return None;
            },
        };
        let j = skip_ws(s, n);
        if j >= s.len() || s[j] != ':' {
            proof {
                assert(sp_after_colon(s@, n as int) is None);
            }
            return None;
        }
        let v0 = skip_ws(s, j + 1);
        proof {
            assert(sp_after_colon(s@, n as int) == Some(v0 as int));
        }
        if v0 <= cur || v0 > s.len() {
            return None;
        }
        let mut vend: usize = 0;
        if name == String::from_str("background_color") {
            if l_background_color.is_some() {
                return None;
            }
            let (x, ve) = match parse_string(s, v0) {
                Some(x) => x,
                None => {
                    return None;
                },
            };
            if ve <= v0 || ve > s.len() {
                return None;
            }
            l_background_color = Some(x);
            vend = ve;
        } else if name == String::from_str("grid_enabled") {
            if l_grid_enabled.is_some() {
                return None;
            }
            let (x, ve) = match parse_bool(s, v0) {
                Some(x) => x,
                None => {
                    return None;
                },
            };
            if ve <= v0 || ve > s.len() {
                return None;
            }
            l_grid_enabled = Some(x);
            vend = ve;
        } else if name == String::from_str("grid_size") {
            if l_grid_size.is_some() {
                return None;
            }
            let (x, ve) = match parse_i32(s, v0) {
                Some(x) => x,
                None => {
                    return None;
                },
            };
            if ve <= v0 || ve > s.len() {
                return None;
            }
            l_grid_size = Some(x);
            vend = ve;
        } else if name == String::from_str("snap_to_grid") {
            if l_snap_to_grid.is_some() {
                return None;
            }
            let (x, ve) = match parse_bool(s, v0) {
                Some(x) => x,
                None => {
                    return None;
                },
            };
            if ve <= v0 || ve > s.len() {
                return None;
            }
            l_snap_to_grid = Some(x);
            vend = ve;
        } else if name == String::from_str("zoom_level") {
            if l_zoom_level.is_some() {
                return None;
            }
            let (x, ve) = match parse_num_field(s, v0) {
                Some(x) => x,
                None => {
                    return None;
                },
            };
            if ve <= v0 || ve > s.len() {
                return None;
            }
            l_zoom_level = Some(x);
            vend = ve;
        } else {
            return None;
        }
        proof {
            assert(sp_settings_members(s@, cur0, acc0) == sp_settings_after(s@, vend as int, SettingsAcc { background_color: (match &l_background_color { Some(v) => Some(v@), None => None }), grid_enabled: (match &l_grid_enabled { Some(v) => Some(*v), None => None }), grid_size: (match &l_grid_size { Some(v) => Some(*v as int), None => None }), snap_to_grid: (match &l_snap_to_grid { Some(v) => Some(*v), None => None }), zoom_level: (match &l_zoom_level { Some(v) => Some(v@), None => None }) }));
        }
        let j2 = skip_ws(s, vend);
        if j2 < s.len() && s[j2] == ',' {
            let k2 = skip_ws(s, j2 + 1);
            if k2 <= vend || k2 > s.len() {
                return None;
            }
            proof {
                assert(sp_settings_after(s@, vend as int, SettingsAcc { background_color: (match &l_background_color { Some(v) => Some(v@), None => None }), grid_enabled: (match &l_grid_enabled { Some(v) => Some(*v), None => None }), grid_size: (match &l_grid_size { Some(v) => Some(*v as int), None => None }), snap_to_grid: (match &l_snap_to_grid { Some(v) => Some(*v), None => None }), zoom_level: (match &l_zoom_level { Some(v) => Some(v@), None => None }) }) == sp_settings_members(s@, k2 as int, SettingsAcc { background_color: (match &l_background_color { Some(v) => Some(v@), None => None }), grid_enabled: (match &l_grid_enabled { Some(v) => Some(*v), None => None }), grid_size: (match &l_grid_size { Some(v) => Some(*v as int), None => None }), snap_to_grid: (match &l_snap_to_grid { Some(v) => Some(*v), None => None }), zoom_level: (match &l_zoom_level { Some(v) => Some(v@), None => None }) }));
            }
            cur = k2;
        } else if j2 < s.len() && s[j2] == '}' {
            match (l_background_color, l_grid_enabled, l_grid_size, l_snap_to_grid, l_zoom_level) {
                (Some(x_background_color), Some(x_grid_enabled), Some(x_grid_size), Some(x_snap_to_grid), Some(x_zoom_level)) => {
                    let out = CanvasSettings { background_color: x_background_color, grid_enabled: x_grid_enabled, grid_size: x_grid_size, snap_to_grid: x_snap_to_grid, zoom_level: x_zoom_level };
                    return Some((out, j2 + 1));
                },
                _ => {
                    return None;
                },
            }
        } else {
            return None;
        }
    }
}

#[verifier::rlimit(100)]
#[verifier::spinoff_prover]
fn parse_widget(s: &Vec<char>, i: usize) -> (r: Option<(Widget, usize)>)
    requires
        i <= s@.len(),
    ensures
        match r {
            Some(x) => sp_parse_widget(s@, i as int) == Some((x.0@, x.1 as int)) && x.0@.wf()
                && x.1 <= s@.len(),
            None => sp_parse_widget(s@, i as int) is None,
        },
{
    if i >= s.len() || s[i] != '{' {
        return None;
    }
    let start = skip_ws(s, i + 1);
    let mut l_id: Option<String> = None;
    let mut l_widget_type: Option<String> = None;
    let mut l_content: Option<String> = None;
    let mut l_position: Option<Position> = None;
    let mut l_size: Option<Size> = None;
    let mut l_style: Option<WidgetStyle> = None;
    if start < s.len() && s[start] == '}' {
        return None;
    }
    let mut cur = start;
    loop
        invariant
            i < s@.len(),
            s@[i as int] == '{',
            i < cur <= s@.len(),
            sp_parse_widget(s@, i as int) == sp_widget_members(s@, cur as int, WidgetAcc { id: (match &l_id { Some(v) => Some(v@), None => None }), widget_type: (match &l_widget_type { Some(v) => Some(v@), None => None }), content: (match &l_content { Some(v) => Some(v@), None => None }), position: (match &l_position { Some(v) => Some(v@), None => None }), size: (match &l_size { Some(v) => Some(v@), None => None }), style: (match &l_style { Some(v) => Some(v@), None => None }) }),
            (match &l_position { Some(v) => v@.wf(), None => true }),
            (match &l_size { Some(v) => v@.wf(), None => true }),
            (match &l_style { Some(v) => v@.wf(), None => true }),
        decreases s@.len() - cur,
    {
        let ghost acc0 = WidgetAcc { id: (match &l_id { Some(v) => Some(v@), None => None }), widget_type: (match &l_widget_type { Some(v) => Some(v@), None => None }), content: (match &l_content { Some(v) => Some(v@), None => None }), position: (match &l_position { Some(v) => Some(v@), None => None }), size: (match &l_size { Some(v) => Some(v@), None => None }), style: (match &l_style { Some(v) => Some(v@), None => None }) };
        let ghost cur0 = cur as int;
        let (name, n) = match parse_string(s, cur) {
            Some(x) => x,
            None => {
                return None;
            },
        };
        let j = skip_ws(s, n);
        if j >= s.len() || s[j] != ':' {
            proof {
                assert(sp_after_colon(s@, n as int) is None);
            }
            return None;
        }
        let v0 = skip_ws(s, j + 1);
        proof {
            assert(sp_after_colon(s@, n as int) == Some(v0 as int));
        }
        if v0 <= cur || v0 > s.len() {
            return None;
        }
        let mut vend: usize = 0;
        if name == String::from_str("id") {
            if l_id.is_some() {
                return None;
            }
            let (x, ve) = match parse_string(s, v0) {
                Some(x) => x,
                None => {
                    return None;
                },
            };
            if ve <= v0 || ve > s.len() {
                return None;
            }
            l_id = Some(x);
            vend = ve;
        } else if name == String::from_str("widget_type") {
            if l_widget_type.is_some() {
                return None;
            }
            let (x, ve) = match parse_string(s, v0) {
                Some(x) => x,
                None => {
                    return None;
                },
            };
            if ve <= v0 || ve > s.len() {
                return None;
            }
            l_widget_type = Some(x);
            vend = ve;
        } else if name == String::from_str("content") {
            if l_content.is_some() {
                return None;
            }
            let (x, ve) = match parse_string(s, v0) {
                Some(x) => x,
                None => {
                    return None;
                },
            };
            if ve <= v0 || ve > s.len() {
                return None;
            }
            l_content = Some(x);
            vend = ve;
        } else if name == String::from_str("position") {
            if l_position.is_some() {
                return None;
            }
            let (x, ve) = match parse_position(s, v0) {
                Some(x) => x,
                None => {
                    return None;
                },
            };
            if ve <= v0 || ve > s.len() {
                return None;
            }
            l_position = Some(x);
            vend = ve;
        } else if name == String::from_str("size") {
            if l_size.is_some() {
                return None;
            }
            let (x, ve) = match parse_size(s, v0) {
                Some(x) => x,
                None => {
                    return None;
                },
            };
            if ve <= v0 || ve > s.len() {
                return None;
            }
            l_size = Some(x);
            vend = ve;
        } else if name == String::from_str("style") {
            if l_style.is_some() {
                return None;
            }
            let (x, ve) = match parse_style(s, v0) {
                Some(x) => x,
                None => {
                    return None;
                },
            };
            if ve <= v0 || ve > s.len() {
                return None;
            }
            l_style = Some(x);
            vend = ve;
        } else {
            return None;
        }
        proof {
            assert(sp_widget_members(s@, cur0, acc0) == sp_widget_after(s@, vend as int, WidgetAcc { id: (match &l_id { Some(v) => Some(v@), None => None }), widget_type: (match &l_widget_type { Some(v) => Some(v@), None => None }), content: (match &l_content { Some(v) => Some(v@), None => None }), position: (match &l_position { Some(v) => Some(v@), None => None }), size: (match &l_size { Some(v) => Some(v@), None => None }), style: (match &l_style { Some(v) => Some(v@), None => None }) }));
        }
        let j2 = skip_ws(s, vend);
        if j2 < s.len() && s[j2] == ',' {
            let k2 = skip_ws(s, j2 + 1);
            if k2 <= vend || k2 > s.len() {
                return None;
            }
            proof {
                assert(sp_widget_after(s@, vend as int, WidgetAcc { id: (match &l_id { Some(v) => Some(v@), None => None }), widget_type: (match &l_widget_type { Some(v) => Some(v@), None => None }), content: (match &l_content { Some(v) => Some(v@), None => None }), position: (match &l_position { Some(v) => Some(v@), None => None }), size: (match &l_size { Some(v) => Some(v@), None => None }), style: (match &l_style { Some(v) => Some(v@), None => None }) }) == sp_widget_members(s@, k2 as int, WidgetAcc { id: (match &l_id { Some(v) => Some(v@), None => None }), widget_type: (match &l_widget_type { Some(v) => Some(v@), None => None }), content: (match &l_content { Some(v) => Some(v@), None => None }), position: (match &l_position { Some(v) => Some(v@), None => None }), size: (match &l_size { Some(v) => Some(v@), None => None }), style: (match &l_style { Some(v) => Some(v@), None => None }) }));
            }
            cur = k2;
        } else if j2 < s.len() && s[j2] == '}' {
            match (l_id, l_widget_type, l_content, l_position, l_size, l_style) {
                (Some(x_id), Some(x_widget_type), Some(x_content), Some(x_position), Some(x_size), Some(x_style)) => {
                    let out = Widget { id: x_id, widget_type: x_widget_type, content: x_content, position: x_position, size: x_size, style: x_style };
                    return Some((out, j2 + 1));
                },
                _ => {
                    return None;
                },
            }
        } else {
            return None;
        }
    }
}

#[verifier::rlimit(100)]
#[verifier::spinoff_prover]
fn parse_docobj(s: &Vec<char>, i: usize) -> (r: Option<(CanvasData, usize)>)
    requires
        i <= s@.len(),
    ensures
        match r {
            Some(x) => sp_parse_docobj(s@, i as int) == Some((x.0@, x.1 as int)) && x.0@.wf()
                && x.1 <= s@.len(),
            None => sp_parse_docobj(s@, i as int) is None,
        },
{
    if i >= s.len() || s[i] != '{' {
        return None;
    }
    let start = skip_ws(s, i + 1);
    let mut l_theme: Option<String> = None;
    let mut l_settings: Option<CanvasSettings> = None;
    let mut l_widgets: Option<Vec<Widget>> = None;
    let mut l_canvas_size: Option<CanvasSize> = None;
    if start < s.len() && s[start] == '}' {
        return None;
    }
    let mut cur = start;
    loop
        invariant
            i < s@.len(),
            s@[i as int] == '{',
            i < cur <= s@.len(),
            sp_parse_docobj(s@, i as int) == sp_docobj_members(s@, cur as int, DocobjAcc { theme: (match &l_theme { Some(v) => Some(v@), None => None }), settings: (match &l_settings { Some(v) => Some(v@), None => None }), widgets: (match &l_widgets { Some(v) => Some(v@.map_values(|w: Widget| w@)), None => None }), canvas_size: (match &l_canvas_size { Some(v) => Some(v@), None => None }) }),
            (match &l_settings { Some(v) => v@.wf(), None => true }),
            (match &l_widgets { Some(v) => (forall|q: int| 0 <= q < v@.len() ==> (#[trigger] v@[q])@.wf()), None => true }),
        decreases s@.len() - cur,
    {
        let ghost acc0 = DocobjAcc { theme: (match &l_theme { Some(v) => Some(v@), None => None }), settings: (match &l_settings { Some(v) => Some(v@), None => None }), widgets: (match &l_widgets { Some(v) => Some(v@.map_values(|w: Widget| w@)), None => None }), canvas_size: (match &l_canvas_size { Some(v) => Some(v@), None => None }) };
        let ghost cur0 = cur as int;
        let (name, n) = match parse_string(s, cur) {
            Some(x) => x,
            None => {
                return None;
            },
        };
        let j = skip_ws(s, n);
        if j >= s.len() || s[j] != ':' {
            proof {
                assert(sp_after_colon(s@, n as int) is None);
            }
            return None;
        }
        let v0 = skip_ws(s, j + 1);
        proof {
            assert(sp_after_colon(s@, n as int) == Some(v0 as int));
        }
        if v0 <= cur || v0 > s.len() {
            return None;
        }
        let mut vend: usize = 0;
        if name == String::from_str("theme") {
            if l_theme.is_some() {
                return None;
            }
            let (x, ve) = match parse_string(s, v0) {
                Some(x) => x,
                None => {
                    return None;
                },
            };
            if ve <= v0 || ve > s.len() {
                return None;
            }
            l_theme = Some(x);
            vend = ve;
        } else if name == String::from_str("settings") {
            if l_settings.is_some() {
                return None;
            }
            let (x, ve) = match parse_settings(s, v0) {
                Some(x) => x,
                None => {
                    return None;
                },
            };
            if ve <= v0 || ve > s.len() {
                return None;
            }
            l_settings = Some(x);
            vend = ve;
        } else if name == String::from_str("widgets") {
            if l_widgets.is_some() {
                return None;
            }
            let (x, ve) = match parse_widgets(s, v0) {
                Some(x) => x,
                None => {
                    return None;
                },
            };
            if ve <= v0 || ve > s.len() {
                return None;
            }
            l_widgets = Some(x);
            vend = ve;
        } else if name == String::from_str("canvas_size") {
            if l_canvas_size.is_some() {
                return None;
            }
            let (x, ve) = match parse_canvas_size(s, v0) {
                Some(x) => x,
                None => {
                    return None;
                },
            };
            if ve <= v0 || ve > s.len() {
                return None;
            }
            l_canvas_size = Some(x);
            vend = ve;
        } else {
            return None;
        }
        proof {
            assert(sp_docobj_members(s@, cur0, acc0) == sp_docobj_after(s@, vend as int, DocobjAcc { theme: (match &l_theme { Some(v) => Some(v@), None => None }), settings: (match &l_settings { Some(v) => Some(v@), None => None }), widgets: (match &l_widgets { Some(v) => Some(v@.map_values(|w: Widget| w@)), None => None }), canvas_size: (match &l_canvas_size { Some(v) => Some(v@), None => None }) }));
        }
        let j2 = skip_ws(s, vend);
        if j2 < s.len() && s[j2] == ',' {
            let k2 = skip_ws(s, j2 + 1);
            if k2 <= vend || k2 > s.len() {
                return None;
            }
            proof {
                assert(sp_docobj_after(s@, vend as int, DocobjAcc { theme: (match &l_theme { Some(v) => Some(v@), None => None }), settings: (match &l_settings { Some(v) => Some(v@), None => None }), widgets: (match &l_widgets { Some(v) => Some(v@.map_values(|w: Widget| w@)), None => None }), canvas_size: (match &l_canvas_size { Some(v) => Some(v@), None => None }) }) == sp_docobj_members(s@, k2 as int, DocobjAcc { theme: (match &l_theme { Some(v) => Some(v@), None => None }), settings: (match &l_settings { Some(v) => Some(v@), None => None }), widgets: (match &l_widgets { Some(v) => Some(v@.map_values(|w: Widget| w@)), None => None }), canvas_size: (match &l_canvas_size { Some(v) => Some(v@), None => None }) }));
            }
            cur = k2;
        } else if j2 < s.len() && s[j2] == '}' {
            match (l_theme, l_settings, l_widgets, l_canvas_size) {
                (Some(x_theme), Some(x_settings), Some(x_widgets), Some(x_canvas_size)) => {
                    let out = CanvasData { theme: x_theme, settings: x_settings, widgets: x_widgets, canvas_size: x_canvas_size };
                    return Some((out, j2 + 1));
                },
                _ => {
                    return None;
                },
            }
        } else {
            return None;
        }
    }
}


/// Reads the widget list.
fn parse_widgets(s: &Vec<char>, i: usize) -> (r: Option<(Vec<Widget>, usize)>)
    requires
        i <= s@.len(),
    ensures
        match r {
            Some(x) => sp_parse_widgets(s@, i as int) == Some(
                (x.0@.map_values(|w: Widget| w@), x.1 as int),
            ) && (forall|q: int| 0 <= q < x.0@.len() ==> (#[trigger] x.0@[q])@.wf()) && x.1
                <= s@.len(),
            None => sp_parse_widgets(s@, i as int) is None,
        },
{
    if i >= s.len() || s[i] != '[' {
        return None;
    }
    let start = skip_ws(s, i + 1);
    let mut acc: Vec<Widget> = Vec::new();
    proof {
        assert(acc@.map_values(|w: Widget| w@) =~= Seq::<WidgetV>::empty());
    }
    if start < s.len() && s[start] == ']' {
        return Some((acc, start + 1));
    }
    let mut cur = start;
    loop
        invariant
            i < cur <= s@.len(),
            sp_parse_widgets(s@, i as int) == sp_widgets_items(
                s@,
                cur as int,
                acc@.map_values(|w: Widget| w@),
            ),
            forall|q: int| 0 <= q < acc@.len() ==> (#[trigger] acc@[q])@.wf(),
        decreases s@.len() - cur,
    {
        let ghost acc0 = acc@.map_values(|w: Widget| w@);
        let ghost cur0 = cur as int;
        let (w, p) = match parse_widget(s, cur) {
            Some(x) => x,
            None => {
                return None;
            },
        };
        if p <= cur || p > s.len() {
            return None;
        }
        acc.push(w);
        proof {
            assert(acc@.map_values(|w: Widget| w@) =~= acc0.push(w@));
        }
        let j = skip_ws(s, p);
        if j < s.len() && s[j] == ',' {
            let k = skip_ws(s, j + 1);
            if k <= cur || k > s.len() {
                return None;
            }
            proof {
                assert(sp_widgets_items(s@, cur0, acc0) == sp_widgets_items(
                    s@,
                    k as int,
                    acc0.push(w@),
                ));
            }
            cur = k;
        } else if j < s.len() && s[j] == ']' {
            proof {
                assert(sp_widgets_items(s@, cur0, acc0) == Some((acc0.push(w@), j + 1)));
            }
            return Some((acc, j + 1));
        } else {
            return None;
        }
    }
}

/// Reads a whole document text; `None` unless the text is a well-typed
/// document under the JSON grammar.
pub fn parse_doc(s: &Vec<char>) -> (r: Option<CanvasData>)
    ensures
        match r {
            Some(d) => sp_parse_doc(s@) == Some(d@) && d.wf(),
            None => sp_parse_doc(s@) is None,
        },
{
    let i = skip_ws(s, 0);
    match parse_docobj(s, i) {
        None => None,
        Some((d, p)) => {
            let q = skip_ws(s, p);
            if q == s.len() {
                Some(d)
            } else {
                None
            }
        },
    }
}

/// Parses a whole document from its text.
pub fn parse_doc_text(text: &str) -> (r: Option<CanvasData>)
    ensures
        match r {
            Some(d) => sp_parse_doc(text@) == Some(d@) && d.wf(),
            None => sp_parse_doc(text@) is None,
        },
{
    let chars = str_chars(text);
    parse_doc(&chars)
}

} // verus!
