//! A web-crawling workflow engine: sequences of browser actions,
//! extractions over page snapshots, containers and sub-sequences.
pub mod text;
pub mod map;
pub mod workflow;
pub mod page;
pub mod action;
pub mod runner;
pub mod keys;
pub mod test_input;
pub mod sequence_file;
pub mod editor;
pub mod palette;
pub mod studio;
pub mod browser;
pub mod server;
pub mod display;
