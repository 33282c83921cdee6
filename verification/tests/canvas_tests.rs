use canvas_store::canvas::{load_canvas_state, save_canvas_state};
use canvas_store::doc::{
    CanvasData, CanvasSettings, CanvasSize, Num, Position, Size, Widget, WidgetStyle,
};
use canvas_store::error::StoreError;

fn num(s: &str) -> Num {
    Num::new(s.to_string()).unwrap()
}

fn sample_widget() -> Widget {
    Widget {
        id: "w-1".to_string(),
        widget_type: "note".to_string(),
        content: "line one\nwith \"quotes\", a \\slash and \u{1} control".to_string(),
        position: Position {
            x: num("12.5"),
            y: num("-3.25"),
        },
        size: Size {
            width: num("100.0"),
            height: num("40.0"),
        },
        style: WidgetStyle {
            background_color: Some("#222222".to_string()),
            border_color: None,
            text_color: Some("#eee".to_string()),
            font_size: Some(14),
            font_family: None,
            rotation: Some(num("45.0")),
            opacity: Some(num("0.5")),
        },
    }
}

fn sample_document() -> CanvasData {
    CanvasData {
        theme: "dark".to_string(),
        settings: CanvasSettings {
            background_color: "#000000".to_string(),
            grid_enabled: false,
            grid_size: 8,
            snap_to_grid: true,
            zoom_level: num("0.75"),
        },
        widgets: vec![
            sample_widget(),
            Widget {
                id: "w-2".to_string(),
                widget_type: "image".to_string(),
                content: String::new(),
                position: Position {
                    x: num("0"),
                    y: num("0"),
                },
                size: Size {
                    width: num("1e2"),
                    height: num("2.5E-1"),
                },
                style: WidgetStyle {
                    background_color: None,
                    border_color: None,
                    text_color: None,
                    font_size: None,
                    font_family: None,
                    rotation: None,
                    opacity: None,
                },
            },
        ],
        canvas_size: CanvasSize {
            width: 3840,
            height: 2160,
        },
    }
}

#[test]
fn default_document_fields() {
    let d = CanvasData::default();
    assert_eq!(d.theme, "light");
    assert_eq!(d.settings.background_color, "#ffffff");
    assert!(d.settings.grid_enabled);
    assert_eq!(d.settings.grid_size, 20);
    assert!(!d.settings.snap_to_grid);
    assert_eq!(d.settings.zoom_level.as_str(), "1.0");
    assert_eq!(d.canvas_size.width, 1920);
    assert_eq!(d.canvas_size.height, 1080);
    assert!(d.widgets.is_empty());
}

#[test]
fn load_missing_returns_default() {
    let r = load_canvas_state(None).unwrap();
    assert_eq!(r, CanvasData::default());
}

#[test]
fn round_trip_default_document() {
    let d = CanvasData::default();
    let text = save_canvas_state(&d);
    let back = load_canvas_state(Some(&text)).unwrap();
    assert_eq!(back, d);
}

#[test]
fn round_trip_with_widgets() {
    let d = sample_document();
    let text = save_canvas_state(&d);
    let back = load_canvas_state(Some(&text)).unwrap();
    assert_eq!(back, d);
}

#[test]
fn round_trip_extreme_integers() {
    let mut d = CanvasData::default();
    d.canvas_size = CanvasSize {
        width: -2147483648,
        height: 2147483647,
    };
    d.settings.grid_size = 0;
    let text = save_canvas_state(&d);
    let back = load_canvas_state(Some(&text)).unwrap();
    assert_eq!(back, d);
}

#[test]
fn malformed_canvas_file_fails() {
    let r = load_canvas_state(Some("{\"theme\": 123}"));
    assert_eq!(r, Err(StoreError::Deserialize));
}

#[test]
fn truncated_canvas_file_fails() {
    let d = CanvasData::default();
    let text = save_canvas_state(&d);
    let r = load_canvas_state(Some(&text[..text.len() - 1]));
    assert_eq!(r, Err(StoreError::Deserialize));
}

#[test]
fn default_document_exact_text() {
    let text = save_canvas_state(&CanvasData::default());
    let expected = "{\n  \"theme\": \"light\",\n  \"settings\": {\n    \"background_color\": \"#ffffff\",\n    \"grid_enabled\": true,\n    \"grid_size\": 20,\n    \"snap_to_grid\": false,\n    \"zoom_level\": 1.0\n  },\n  \"widgets\": [],\n  \"canvas_size\": {\n    \"width\": 1920,\n    \"height\": 1080\n  }\n}";
    assert_eq!(text, expected);
}

#[test]
fn printed_text_is_valid_json() {
    let d = sample_document();
    let text = save_canvas_state(&d);
    let v: serde_json::Value = serde_json::from_str(&text).unwrap();
    assert_eq!(v["theme"].as_str(), Some("dark"));
    assert_eq!(v["settings"]["grid_size"].as_i64(), Some(8));
    assert_eq!(v["settings"]["zoom_level"].as_f64(), Some(0.75));
    assert_eq!(v["canvas_size"]["width"].as_i64(), Some(3840));
    let widgets = v["widgets"].as_array().unwrap();
    assert_eq!(widgets.len(), 2);
    assert_eq!(widgets[0]["id"].as_str(), Some("w-1"));
    assert_eq!(
        widgets[0]["content"].as_str(),
        Some("line one\nwith \"quotes\", a \\slash and \u{1} control")
    );
    assert_eq!(widgets[0]["style"]["font_size"].as_i64(), Some(14));
    assert!(widgets[1]["style"]["opacity"].is_null());
    assert_eq!(widgets[1]["position"]["x"].as_f64(), Some(0.0));
}

#[test]
fn num_validation() {
    assert!(Num::new("1.0".to_string()).is_some());
    assert!(Num::new("-2.5e3".to_string()).is_some());
    assert!(Num::new("0".to_string()).is_some());
    assert!(Num::new("2.5E-1".to_string()).is_some());
    assert!(Num::new("01".to_string()).is_none());
    assert!(Num::new("".to_string()).is_none());
    assert!(Num::new("abc".to_string()).is_none());
    assert!(Num::new("1.".to_string()).is_none());
    assert!(Num::new("+1".to_string()).is_none());
    assert!(Num::new("-".to_string()).is_none());
    assert!(Num::new("1e".to_string()).is_none());
}

#[test]
fn error_messages() {
    assert_eq!(StoreError::Format.message(), "Invalid image data format");
    assert_eq!(
        StoreError::Deserialize.message(),
        "Failed to deserialize canvas data"
    );
    assert_eq!(
        StoreError::Decode("bad pad".to_string()).message(),
        "Failed to decode image data: bad pad"
    );
}
