use vstd::prelude::*;

pub mod calibration;
pub mod config;
pub mod defaults;
pub mod editor;
pub mod engine;
pub mod kda;
pub mod logger;
pub mod ocr;
pub mod order;
pub mod page;
pub mod scheme;
pub mod search;
pub mod sender;
pub mod text;
pub mod ui;
pub mod window;

verus! {

} // verus!
