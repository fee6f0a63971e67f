//! A library for the Ted todo files: the text formats they are written in,
//! the names they are stored under, and the state of the editing form.
use vstd::prelude::*;

pub mod text;
pub mod paths;
pub mod filestorage;
pub mod parser;
pub mod clock;
pub mod markdown;
pub mod utils;
pub mod app;
pub mod theme;
pub mod view;
pub mod properties;
pub mod readback;
pub mod order;
pub mod tedlist;
pub mod browser;
pub mod highlight;

verus! {
} // verus!
