pub mod search;
pub mod tray;
