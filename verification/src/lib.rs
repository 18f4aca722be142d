//! Text rules of a novel downloader and formatter: character classes, the
//! custom punctuation and spacing normalisation of novel text, the title
//! formats of volumes and chapters, file naming, and the layout of the
//! generated markdown.

pub mod check;
pub mod cli;
pub mod config;
pub mod convert;
pub mod download;
pub mod images;
pub mod layout;
pub mod line_break;
pub mod markdown;
pub mod names;
pub mod novel;
pub mod novel_info;
pub mod reader;
pub mod search;
pub mod render;
pub mod tables;
pub mod text;
pub mod transform;
pub mod unicode;
