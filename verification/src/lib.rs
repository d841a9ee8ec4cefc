//! A virtual dom for html and svg views: building, rendering to html text,
//! tree paths, css generation and the update loop of an application.
pub mod text;
pub mod value;
pub mod callback;
pub mod events;
pub mod attribute;
pub mod node;
pub mod html;
pub mod html_attributes;
pub mod svg;
pub mod render;
pub mod tree_path;
pub mod chars;
pub mod jss;
pub mod units;
pub mod modifier;
pub mod cmd;
pub mod effects;
pub mod prediff;
pub mod component;
pub mod app;
pub mod dom_actions;
pub mod map_msg;
