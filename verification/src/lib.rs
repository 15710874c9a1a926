//! Core logic of the media library: text handling, path layout, settings
//! normalisation, designation handling and source parsing.

pub mod text;
pub mod paths;
pub mod sources;
pub mod finder;
pub mod seqs;
pub mod settings;
pub mod artwork;
pub mod storage;
pub mod html;
pub mod subtitle;
pub mod designation;
pub mod avsox;
pub mod scrape;
pub mod urls;
pub mod routing;
pub mod assets;
pub mod regexes;
pub mod download;
pub mod queue;
pub mod actor;
pub mod hls;
pub mod webview;
pub mod avgood;
pub mod javguru;
pub mod av123;
pub mod avsox_api;
pub mod previews;
pub mod records;
pub mod task_edit;
pub mod scrape_queue;
pub mod media_write;
pub mod page;
