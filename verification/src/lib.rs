//! Persistence backend for a widget-canvas editor.
//!
//! Two stores back the editor's UI. The canvas store serializes a
//! `CanvasData` document to the canonical pretty-printed JSON text this
//! crate defines, and reads such a text back. The image store turns a
//! base64 data URL into the raw bytes of a header-image file and back.
//! Neither store touches the file system: each function here computes the
//! text or bytes to write, or interprets the content that was read, so the
//! caller performs the I/O around it.

pub mod canvas;
pub mod doc;
pub mod error;
pub mod image;
pub mod jtext;
pub mod numtext;
pub mod reader;
pub mod roundtrip;
pub mod store;
pub mod writer;
