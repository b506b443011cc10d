//! Verified core of a screen-capture-and-translate pipeline.
//!
//! The pipeline snapshots a screen region, binarizes it for OCR, cleans the
//! recognized text, and scrapes the translated text out of a translation
//! page's HTML response.  Capture, OCR, clipboard, HTTP and UI are left to
//! unverified callers; this crate holds the transformations between them:
//!
//! * a luminance-threshold binarizer over RGBA pixel buffers,
//! * an extractor that pulls the translated lines out of an HTML response,
//! * the OCR noise-character cleanup,
//! * the translation-site URL tables and the shared origin/translated state.

pub mod bitmap;
pub mod chars;
pub mod color;
pub mod ocr;
pub mod panel;
pub mod sites;
pub mod translate;
pub mod web;
