//! A static-site build engine: content model, tag index, output planning and
//! the rebuild decisions of the development loop.
pub mod authoring;
pub mod config;
pub mod context;
pub mod date;
pub mod document;
pub mod error;
pub mod extensions;
pub mod output;
pub mod page;
pub mod post;
pub mod posts;
pub mod tags;
pub mod text;
pub mod tools;
pub mod watch;
