//! Disk-usage analysis core: path classification, scan aggregation and
//! the navigation state of the interactive browser.

pub mod text;
pub mod apps;
pub mod paths;
pub mod category;
pub mod classify;
pub mod display;
pub mod order;
pub mod dirmap;
pub mod scan;
pub mod nav;
