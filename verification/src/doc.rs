//! The canvas document.
//!
//! The document mirrors the JSON shape of the canvas file: a theme, the
//! canvas settings, the widget list, and the canvas size. Fractional
//! numeric fields (zoom, positions, sizes, rotation, opacity) carry
//! their JSON number text as the document's value, so a document is
//! reproduced on disk exactly as it was written; integer fields are
//! 32-bit integers.

use vstd::prelude::*;
use crate::numtext::{digits_end, gr_exp_end, gr_frac_end, gr_int_end, is_number_text};
use crate::jtext::str_chars;

verus! {

/// A JSON number text, such as `1.0` or `-2.5e3`.
#[derive(Debug, PartialEq)]
pub struct Num {
    text: String,
}

impl View for Num {
    type V = Seq<char>;

    closed spec fn view(&self) -> Seq<char> {
        self.text@
    }
}

impl Num {
    /// A well-formed number holds a text of the JSON number grammar.
    pub open spec fn wf(&self) -> bool {
        is_number_text(self@)
    }

    /// Wraps a text that is already known to match the number grammar.
    pub fn from_text(text: String) -> (r: Num)
        requires
            is_number_text(text@),
        ensures
            r@ == text@,
            r.wf(),
    {
        Num { text }
    }

    /// Validates and wraps a number text; `None` where the text does not
    /// match the JSON number grammar.
    pub fn new(text: String) -> (r: Option<Num>)
        ensures
            match r {
                Some(n) => is_number_text(text@) && n@ == text@ && n.wf(),
                None => !is_number_text(text@),
            },
    {
        let chars = str_chars(text.as_str());
        if crate::numtext::check_number_text(&chars) {
            Some(Num { text })
        } else {
            None
        }
    }

    /// The number text itself.
    pub fn as_str(&self) -> (r: &str)
        ensures
            r@ == self@,
    {
        self.text.as_str()
    }
}

/// The optional per-widget style record.
#[derive(Debug, PartialEq)]
pub struct WidgetStyle {
    pub background_color: Option<String>,
    pub border_color: Option<String>,
    pub text_color: Option<String>,
    pub font_size: Option<i32>,
    pub font_family: Option<String>,
    pub rotation: Option<Num>,
    pub opacity: Option<Num>,
}

pub ghost struct WidgetStyleV {
    pub background_color: Option<Seq<char>>,
    pub border_color: Option<Seq<char>>,
    pub text_color: Option<Seq<char>>,
    pub font_size: Option<int>,
    pub font_family: Option<Seq<char>>,
    pub rotation: Option<Seq<char>>,
    pub opacity: Option<Seq<char>>,
}

/// The view of an optional string field.
pub open spec fn opt_view(o: Option<String>) -> Option<Seq<char>> {
    match o {
        Some(s) => Some(s@),
        None => None,
    }
}

/// The view of an optional number field.
pub open spec fn opt_num_view(o: Option<Num>) -> Option<Seq<char>> {
    match o {
        Some(n) => Some(n@),
        None => None,
    }
}

/// The view of an optional integer field.
pub open spec fn opt_i32_view(o: Option<i32>) -> Option<int> {
    match o {
        Some(v) => Some(v as int),
        None => None,
    }
}

impl View for WidgetStyle {
    type V = WidgetStyleV;

    open spec fn view(&self) -> WidgetStyleV {
        WidgetStyleV {
            background_color: opt_view(self.background_color),
            border_color: opt_view(self.border_color),
            text_color: opt_view(self.text_color),
            font_size: opt_i32_view(self.font_size),
            font_family: opt_view(self.font_family),
            rotation: opt_num_view(self.rotation),
            opacity: opt_num_view(self.opacity),
        }
    }
}

/// Is an optional number field either absent or a number text?
pub open spec fn opt_num_wf(o: Option<Seq<char>>) -> bool {
    match o {
        Some(t) => is_number_text(t),
        None => true,
    }
}

/// Is an optional integer field either absent or in the 32-bit range?
pub open spec fn opt_i32_wf(o: Option<int>) -> bool {
    match o {
        Some(v) => -2147483648 <= v <= 2147483647,
        None => true,
    }
}

impl WidgetStyleV {
    pub open spec fn wf(self) -> bool {
        opt_num_wf(self.rotation) && opt_num_wf(self.opacity) && opt_i32_wf(self.font_size)
    }
}

/// A widget's position on the canvas.
#[derive(Debug, PartialEq)]
pub struct Position {
    pub x: Num,
    pub y: Num,
}

pub ghost struct PositionV {
    pub x: Seq<char>,
    pub y: Seq<char>,
}

impl View for Position {
    type V = PositionV;

    open spec fn view(&self) -> PositionV {
        PositionV { x: self.x@, y: self.y@ }
    }
}

impl PositionV {
    pub open spec fn wf(self) -> bool {
        is_number_text(self.x) && is_number_text(self.y)
    }
}

/// A widget's extent on the canvas.
#[derive(Debug, PartialEq)]
pub struct Size {
    pub width: Num,
    pub height: Num,
}

pub ghost struct SizeV {
    pub width: Seq<char>,
    pub height: Seq<char>,
}

impl View for Size {
    type V = SizeV;

    open spec fn view(&self) -> SizeV {
        SizeV { width: self.width@, height: self.height@ }
    }
}

impl SizeV {
    pub open spec fn wf(self) -> bool {
        is_number_text(self.width) && is_number_text(self.height)
    }
}

/// One positioned, styled content element of the canvas.
#[derive(Debug, PartialEq)]
pub struct Widget {
    pub id: String,
    pub widget_type: String,
    pub content: String,
    pub position: Position,
    pub size: Size,
    pub style: WidgetStyle,
}

pub ghost struct WidgetV {
    pub id: Seq<char>,
    pub widget_type: Seq<char>,
    pub content: Seq<char>,
    pub position: PositionV,
    pub size: SizeV,
    pub style: WidgetStyleV,
}

impl View for Widget {
    type V = WidgetV;

    open spec fn view(&self) -> WidgetV {
        WidgetV {
            id: self.id@,
            widget_type: self.widget_type@,
            content: self.content@,
            position: self.position@,
            size: self.size@,
            style: self.style@,
        }
    }
}

impl WidgetV {
    pub open spec fn wf(self) -> bool {
        self.position.wf() && self.size.wf() && self.style.wf()
    }
}

/// The document-wide editor settings.
#[derive(Debug, PartialEq)]
pub struct CanvasSettings {
    pub background_color: String,
    pub grid_enabled: bool,
    pub grid_size: i32,
    pub snap_to_grid: bool,
    pub zoom_level: Num,
}

pub ghost struct CanvasSettingsV {
    pub background_color: Seq<char>,
    pub grid_enabled: bool,
    pub grid_size: int,
    pub snap_to_grid: bool,
    pub zoom_level: Seq<char>,
}

impl View for CanvasSettings {
    type V = CanvasSettingsV;

    open spec fn view(&self) -> CanvasSettingsV {
        CanvasSettingsV {
            background_color: self.background_color@,
            grid_enabled: self.grid_enabled,
            grid_size: self.grid_size as int,
            snap_to_grid: self.snap_to_grid,
            zoom_level: self.zoom_level@,
        }
    }
}

impl CanvasSettingsV {
    pub open spec fn wf(self) -> bool {
        is_number_text(self.zoom_level) && -2147483648 <= self.grid_size <= 2147483647
    }
}

/// The canvas extent in whole units.
#[derive(Debug, PartialEq)]
pub struct CanvasSize {
    pub width: i32,
    pub height: i32,
}

pub ghost struct CanvasSizeV {
    pub width: int,
    pub height: int,
}

impl View for CanvasSize {
    type V = CanvasSizeV;

    open spec fn view(&self) -> CanvasSizeV {
        CanvasSizeV { width: self.width as int, height: self.height as int }
    }
}

impl CanvasSizeV {
    pub open spec fn wf(self) -> bool {
        -2147483648 <= self.width <= 2147483647 && -2147483648 <= self.height <= 2147483647
    }
}

/// The whole canvas document, as one record.
#[derive(Debug, PartialEq)]
pub struct CanvasData {
    pub theme: String,
    pub settings: CanvasSettings,
    pub widgets: Vec<Widget>,
    pub canvas_size: CanvasSize,
}

pub ghost struct CanvasDataV {
    pub theme: Seq<char>,
    pub settings: CanvasSettingsV,
    pub widgets: Seq<WidgetV>,
    pub canvas_size: CanvasSizeV,
}

impl View for CanvasData {
    type V = CanvasDataV;

    open spec fn view(&self) -> CanvasDataV {
        CanvasDataV {
            theme: self.theme@,
            settings: self.settings@,
            widgets: self.widgets@.map_values(|w: Widget| w@),
            canvas_size: self.canvas_size@,
        }
    }
}

impl CanvasDataV {
    /// A document is well formed when every numeric field holds a JSON
    /// number text and every integer field is in the 32-bit range. The
    /// store accepts any such document: nothing else is validated.
    pub open spec fn wf(self) -> bool {
        self.settings.wf() && self.canvas_size.wf() && (forall|k: int|
            0 <= k < self.widgets.len() ==> (#[trigger] self.widgets[k]).wf())
    }
}

impl CanvasData {
    pub open spec fn wf(&self) -> bool {
        self@.wf()
    }
}

/// The document handed out when no canvas file exists yet: light theme,
/// white background, a 20-unit grid shown but not snapped to, zoom 1.0,
/// a 1920 x 1080 canvas, and no widgets.
pub open spec fn default_doc() -> CanvasDataV {
    CanvasDataV {
        theme: "light"@,
        settings: CanvasSettingsV {
            background_color: "#ffffff"@,
            grid_enabled: true,
            grid_size: 20,
            snap_to_grid: false,
            zoom_level: "1.0"@,
        },
        widgets: Seq::empty(),
        canvas_size: CanvasSizeV { width: 1920, height: 1080 },
    }
}

/// The default zoom text matches the number grammar.
pub proof fn lemma_default_zoom_wf()
    ensures
        is_number_text("1.0"@),
{
    reveal_strlit("1.0");
    let s = "1.0"@;
    assert(s.len() == 3 && s[0] == '1' && s[1] == '.' && s[2] == '0');
    assert(digits_end(s, 3) == 3);
    assert(digits_end(s, 2) == 3);
    assert(digits_end(s, 1) == 1);
    assert(digits_end(s, 0) == 1);
    assert(gr_int_end(s, 0) == Some(1int));
    assert(gr_frac_end(s, 1) == Some(3int));
    assert(gr_exp_end(s, 3) == Some(3int));
}

/// The default document is well formed.
pub proof fn lemma_default_doc_wf()
    ensures
        default_doc().wf(),
{
    lemma_default_zoom_wf();
}

impl Default for CanvasData {
    /// The exact default document.
    fn default() -> (d: CanvasData)
        ensures
            d@ == default_doc(),
            d.wf(),
    {
        proof {
            lemma_default_zoom_wf();
        }
        let d = CanvasData {
            theme: String::from_str("light"),
            settings: CanvasSettings {
                background_color: String::from_str("#ffffff"),
                grid_enabled: true,
                grid_size: 20,
                snap_to_grid: false,
                zoom_level: Num::from_text(String::from_str("1.0")),
            },
            widgets: Vec::new(),
            canvas_size: CanvasSize { width: 1920, height: 1080 },
        };
        proof {
            assert(d@.widgets =~= default_doc().widgets);
            assert(d@ == default_doc());
            lemma_default_doc_wf();
        }
        d
    }
}

} // verus!
