use vstd::prelude::*;

pub mod text;
pub mod bytes;
pub mod agent_yaml;
pub mod test_element;
pub mod test_timeout;
pub mod test_log;
pub mod test_observability;
pub mod config;
pub mod registry;
pub mod adb;
pub mod catalogue;
pub mod touch;
pub mod test_fixture;
pub mod xml;
pub mod ui_parser;
pub mod semantic;
pub mod test_spec;
pub mod test_action;
pub mod input_focus;
pub mod mirror;
pub mod devices;
pub mod daemon;
pub mod crawl;
pub mod calibrate;
pub mod resource;
pub mod tc_select;
pub mod scroll_capture;
pub mod app_query;
pub mod recovery;
pub mod json;

verus! {
}
